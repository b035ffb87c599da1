use livesplit_core::image::{Image, ImageIdSource};
use livesplit_core::run::{Run, Segment, Time, TimeSpan};
use livesplit_core::saver::file_write::{FileWrite, OnlyStoreMainFile, StoreOtherFiles};
use livesplit_core::saver::{splitty, urn, wsplit};

fn ms(v: i64) -> Option<TimeSpan> {
    Some(TimeSpan::from_milliseconds(v))
}

fn seg(name: &str, pb_ms: i64, best_ms: i64, best_time_ms: i64) -> Segment {
    let mut s = Segment::new(name);
    s.personal_best_split_time = Time::from_real_time(ms(pb_ms));
    s.best_segment_time = Time::from_real_time(ms(best_ms));
    s.push_comparison("Best Split Times", Time::from_real_time(ms(best_time_ms)));
    s
}

fn example_run() -> Run {
    let mut run = Run::new();
    run.game_name = "Dishonored".to_string();
    run.category_name = "Any%".to_string();
    run.attempt_count = 1958;
    run.offset = TimeSpan::from_ticks(0);
    run.push_segment(seg("One", 191265, 5432, 5432));
    run.push_segment(seg("Two", 264860, 2003, 261920));
    run
}

#[test]
fn wsplit() {
    let run = example_run();
    let mut writer = OnlyStoreMainFile(String::new());
    wsplit::save(&run, &mut writer);
    let expected = "Title=Dishonored - Any%\n\
                    Attempts=1958\n\
                    Offset=0\n\
                    Size=152,25\n\
                    One,0,191.265,5.432\n\
                    Two,0,264.86,2.003\n\
                    Icons=\"\",\"\"\n";
    assert_eq!(expected, writer.0.as_str());
}

#[test]
fn wsplit_negative_offset_and_old_run() {
    let mut run = Run::new();
    run.game_name = "Game".to_string();
    run.attempt_count = 3;
    run.offset = TimeSpan::from_milliseconds(-1500);
    let mut s = Segment::new("A");
    s.personal_best_split_time = Time::from_real_time(ms(60000));
    s.push_comparison("Old Run", Time::from_real_time(ms(59500)));
    run.push_segment(s);
    let mut writer = OnlyStoreMainFile(String::new());
    wsplit::save(&run, &mut writer);
    let expected = "Title=Game\n\
                    Attempts=3\n\
                    Offset=1500\n\
                    Size=152,25\n\
                    A,59.5,60,0\n\
                    Icons=\"\"\n";
    assert_eq!(expected, writer.0.as_str());
}

#[test]
fn wsplit_stores_icon_files() {
    let png: Vec<u8> = vec![
        0x89, 0x50, 0x4E, 0x47, 0x0D, 0x0A, 0x1A, 0x0A, 0x00, 0x01, 0x02, 0x03,
    ];
    let mut run = Run::new();
    run.game_name = "G".to_string();
    let mut s = Segment::new("A");
    let mut ids = ImageIdSource::new();
    s.icon = Image::new(&png, &mut ids);
    run.push_segment(s);
    let mut writer = StoreOtherFiles::new();
    wsplit::save(&run, &mut writer);
    assert!(writer.main.contains("Icons=\"icon0\".png\n"));
    assert_eq!(writer.others.len(), 1);
    assert_eq!(writer.others[0].0.as_str(), "\"icon0\".png");
    assert_eq!(writer.others[0].1, png);
}

#[test]
fn splitty() {
    let run = example_run();
    let mut out = String::new();
    splitty::save(&run, &mut out);
    let expected = "{\"timer_name\":\"Dishonored - Any%\",\"run_name\":\"Dishonored - Any%\",\
                    \"hash\":\"\",\"start_delay\":-0.0,\"run_count\":1958,\"splits\":[\
                    {\"name\":\"One\",\"pb_split\":191265.0,\"pb_duration\":191265.0,\"split_best\":5432.0},\
                    {\"name\":\"Two\",\"pb_split\":264860.0,\"pb_duration\":73595.0,\"split_best\":2003.0}\
                    ],\"timer_type\":0}";
    assert_eq!(expected, out.as_str());
}

#[test]
fn splitty_escapes_and_parses() {
    let mut run = Run::new();
    run.game_name = "Ga\"me\\x".to_string();
    let mut s = Segment::new("Seg\none");
    s.personal_best_split_time = Time::from_real_time(ms(1000));
    run.push_segment(s);
    let mut out = String::new();
    splitty::save(&run, &mut out);
    let v: serde_json::Value = serde_json::from_str(&out).unwrap();
    assert_eq!(v.get("timer_name").unwrap().as_str().unwrap(), "Ga\"me\\x");
    let splits = v.get("splits").unwrap().as_array().unwrap();
    assert_eq!(splits[0].get("name").unwrap().as_str().unwrap(), "Seg\none");
    assert!(splits[0].get("pb_duration").unwrap().as_f64().unwrap() == 1000.0);
    assert!(splits[0].get("split_best").unwrap().is_null());
}

#[test]
fn urn() {
    let run = example_run();
    let mut out = String::new();
    urn::save(&run, &mut out);
    let expected = "{\"title\":\"Dishonored - Any%\",\"attempt_count\":1958,\"splits\":[\
                    {\"title\":\"One\",\"time\":\"00:03:11.2650000\",\"best_time\":\"00:00:05.4320000\",\"best_segment\":\"00:00:05.4320000\"},\
                    {\"title\":\"Two\",\"time\":\"00:04:24.8600000\",\"best_time\":\"00:04:21.9200000\",\"best_segment\":\"00:00:02.0030000\"}\
                    ]}";
    assert_eq!(expected, out.as_str());
}

#[test]
fn urn_omits_empty_fields() {
    let mut run = Run::new();
    run.offset = TimeSpan::from_milliseconds(-2500);
    let s = Segment::new("");
    run.push_segment(s);
    let mut unnamed = Segment::new("");
    unnamed.personal_best_split_time = Time::from_real_time(ms(61000));
    unnamed.best_segment_time = Time::from_real_time(ms(500));
    run.push_segment(unnamed);
    let mut out = String::new();
    urn::save(&run, &mut out);
    let expected = "{\"start_delay\":\"00:00:02.5000000\",\"splits\":[{},\
                    {\"time\":\"00:01:01.0000000\",\"best_segment\":\"00:00:00.5000000\"}]}";
    assert_eq!(expected, out.as_str());
    let v: serde_json::Value = serde_json::from_str(&out).unwrap();
    assert!(v.get("title").is_none());
    assert!(v.get("attempt_count").is_none());
}

#[test]
fn only_store_main_file_refuses_side_files() {
    let writer = OnlyStoreMainFile(String::new());
    assert!(!writer.supports_other_files());
    let store = StoreOtherFiles::new();
    assert!(store.supports_other_files());
}
