//! Abstracts writing out multiple files: a main file of text, and
//! possibly further named side files of bytes. Implementations could
//! keep only the main data, keep every file, or pack them into an
//! archive.

use vstd::prelude::*;

verus! {

/// A sink for one main text file and, optionally, further named byte
/// files. The three views say what has been written so far; every write
/// preserves whether side files are supported.
pub trait FileWrite: Sized {
    /// The text written to the main file so far.
    spec fn main_content(&self) -> Seq<char>;

    /// The side files written so far: their names and bytes, in order.
    spec fn other_files(&self) -> Seq<(Seq<char>, Seq<u8>)>;

    /// Whether this sink stores side files at all.
    spec fn spec_supports_other_files(&self) -> bool;

    /// Reports whether side files are supported.
    fn supports_other_files(&self) -> (r: bool)
        ensures
            r == self.spec_supports_other_files(),
    ;

    /// Appends text to the main file.
    fn write_main(&mut self, data: &str)
        ensures
            final(self).main_content() == old(self).main_content() + data@,
            final(self).other_files() == old(self).other_files(),
            final(self).spec_supports_other_files() == old(self).spec_supports_other_files(),
    ;

    /// Starts a fresh side file under `name`. The main file may not be
    /// valid anymore after opening another file.
    fn start_other_file(&mut self, name: &str)
        requires
            old(self).spec_supports_other_files(),
        ensures
            final(self).other_files() == old(self).other_files().push(
                (name@, Seq::<u8>::empty()),
            ),
            final(self).main_content() == old(self).main_content(),
            final(self).spec_supports_other_files() == old(self).spec_supports_other_files(),
    ;

    /// Appends bytes to the side file started last.
    fn write_other(&mut self, data: &[u8])
        requires
            old(self).spec_supports_other_files(),
            old(self).other_files().len() > 0,
        ensures
            ({
                let o = old(self).other_files();
                let l = o.len() - 1;
                final(self).other_files() == o.update(l, (o[l].0, o[l].1 + data@))
            }),
            final(self).main_content() == old(self).main_content(),
            final(self).spec_supports_other_files() == old(self).spec_supports_other_files(),
    ;
}

/// Stores only the main file; side files are not supported.
pub struct OnlyStoreMainFile(pub String);

impl FileWrite for OnlyStoreMainFile {
    open spec fn main_content(&self) -> Seq<char> {
        self.0@
    }

    open spec fn other_files(&self) -> Seq<(Seq<char>, Seq<u8>)> {
        Seq::empty()
    }

    open spec fn spec_supports_other_files(&self) -> bool {
        false
    }

    fn supports_other_files(&self) -> (r: bool) {
        false
    }

    fn write_main(&mut self, data: &str) {
        self.0.append(data);
    }

    fn start_other_file(&mut self, name: &str) {
    }

    fn write_other(&mut self, data: &[u8]) {
    }
}

/// Stores the main file and every side file in memory.
pub struct StoreOtherFiles {
    pub main: String,
    pub others: Vec<(String, Vec<u8>)>,
}

impl StoreOtherFiles {
    /// An empty sink.
    pub fn new() -> (r: StoreOtherFiles)
        ensures
            r.main_content() == Seq::<char>::empty(),
            r.other_files() == Seq::<(Seq<char>, Seq<u8>)>::empty(),
            r.spec_supports_other_files(),
    {
        let r = StoreOtherFiles { main: String::new(), others: Vec::new() };
        proof {
            assert(r.other_files() =~= Seq::<(Seq<char>, Seq<u8>)>::empty());
        }
        r
    }
}

impl FileWrite for StoreOtherFiles {
    open spec fn main_content(&self) -> Seq<char> {
        self.main@
    }

    open spec fn other_files(&self) -> Seq<(Seq<char>, Seq<u8>)> {
        self.others@.map_values(|p: (String, Vec<u8>)| (p.0@, p.1@))
    }

    open spec fn spec_supports_other_files(&self) -> bool {
        true
    }

    fn supports_other_files(&self) -> (r: bool) {
        true
    }

    fn write_main(&mut self, data: &str) {
        self.main.append(data);
    }

    fn start_other_file(&mut self, name: &str) {
        self.others.push((String::from_str(name), Vec::new()));
        proof {
            assert(self.other_files() =~= old(self).other_files().push(
                (name@, Seq::<u8>::empty()),
            ));
        }
    }

    fn write_other(&mut self, data: &[u8]) {
        let l = self.others.len() - 1;
        let mut entry = self.others.remove(l);
        let mut j: usize = 0;
        while j < data.len()
            invariant
                0 <= j <= data@.len(),
                entry.1@ == old(self).others@[old(self).others@.len() - 1].1@ + data@.subrange(
                    0,
                    j as int,
                ),
                entry.0 == old(self).others@[old(self).others@.len() - 1].0,
            decreases data@.len() - j,
        {
            entry.1.push(data[j]);
            proof {
                let base = old(self).others@[old(self).others@.len() - 1].1@;
                assert(base + data@.subrange(0, j + 1) =~= (base + data@.subrange(0, j as int)).push(
                    data@[j as int],
                ));
            }
            j += 1;
        }
        self.others.push(entry);
        proof {
            let o = old(self).other_files();
            let l2 = o.len() - 1;
            assert(data@.subrange(0, data@.len() as int) =~= data@);
            assert(self.other_files() =~= o.update(l2, (o[l2].0, o[l2].1 + data@)));
        }
    }
}

} // verus!
