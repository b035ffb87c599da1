//! Shared pieces of the Java backends: documentation-comment rendering.
//!
//! The backend driver that lays source trees out on disk stays outside the
//! verified crate; the text each backend produces is computed here and in
//! [`crate::java_wasm`].

use vstd::prelude::*;
use crate::text::{replace_all, replace_spec};

verus! {

/// The placeholder substitutions applied to every documentation comment:
/// `<NULL>`, `<TRUE>` and `<FALSE>` become the Java spellings.
pub open spec fn comment_sub(c: Seq<char>) -> Seq<char> {
    replace_spec(
        replace_spec(replace_spec(c, "<NULL>"@, "null"@), "<TRUE>"@, "true"@),
        "<FALSE>"@,
        "false"@,
    )
}

/// Applies the placeholder substitutions to one comment line.
pub fn substitute_comment(c: &str) -> (r: String)
    ensures
        r@ == comment_sub(c@),
{
    proof {
        reveal_strlit("<NULL>");
        reveal_strlit("<TRUE>");
        reveal_strlit("<FALSE>");
    }
    let a = replace_all(c, "<NULL>", "null");
    let b = replace_all(a.as_str(), "<TRUE>", "true");
    replace_all(b.as_str(), "<FALSE>", "false")
}

/// The lines of a class-level documentation block, one comment per line.
pub open spec fn class_comment_lines(comments: Seq<String>) -> Seq<char>
    decreases comments.len(),
{
    if comments.len() == 0 {
        Seq::empty()
    } else {
        "\n * "@ + comment_sub(comments[0]@) + class_comment_lines(comments.drop_first())
    }
}

/// A complete class-level documentation block.
pub open spec fn class_comments_text(comments: Seq<String>) -> Seq<char> {
    "\n/**"@ + class_comment_lines(comments) + "\n */"@
}

/// Appends the documentation block for a class to `out`, substituting the
/// placeholders in each comment line.
pub fn write_class_comments(out: &mut String, comments: &Vec<String>)
    ensures
        final(out)@ == old(out)@ + class_comments_text(comments@),
{
    out.append("\n/**");
    let ghost base = out@;
    let mut i: usize = 0;
    proof {
        assert(comments@.skip(0) =~= comments@);
    }
    while i < comments.len()
        invariant
            0 <= i <= comments@.len(),
            base + class_comment_lines(comments@) == out@ + class_comment_lines(
                comments@.skip(i as int),
            ),
        decreases comments@.len() - i,
    {
        let ghost rest = comments@.skip(i as int);
        let ghost out0 = out@;
        out.append("\n * ");
        let line = substitute_comment(comments[i].as_str());
        out.append(line.as_str());
        proof {
            assert(rest[0] == comments@[i as int]);
            assert(rest.drop_first() =~= comments@.skip(i + 1));
            let tail = class_comment_lines(comments@.skip(i + 1));
            assert(out0 + ("\n * "@ + comment_sub(comments@[i as int]@) + tail) =~= ((out0
                + "\n * "@) + comment_sub(comments@[i as int]@)) + tail);
        }
        i += 1;
    }
    proof {
        assert(comments@.skip(comments@.len() as int) =~= Seq::<String>::empty());
        assert(out@ + Seq::<char>::empty() =~= out@);
    }
    out.append("\n */");
    proof {
        assert(old(out)@ + class_comments_text(comments@) =~= ((old(out)@ + "\n/**"@)
            + class_comment_lines(comments@)) + "\n */"@);
    }
}

} // verus!
