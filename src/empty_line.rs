use vstd::prelude::*;

use crate::source_file::SourceFile;

verus! {

/// The characters with the Unicode `White_Space` property: what trimming a
/// line removes.
pub open spec fn is_white_space(c: char) -> bool {
    let u = c as u32;
    (0x09 <= u && u <= 0x0d) || u == 0x20 || u == 0x85 || u == 0xa0 || u == 0x1680 || (0x2000
        <= u && u <= 0x200a) || u == 0x2028 || u == 0x2029 || u == 0x202f || u == 0x205f || u
        == 0x3000
}

/// Whether the last line of `s`, the text after its last `'\n'` (all of `s`
/// where it has none), is blank: white space only.
pub open spec fn last_line_blank(s: Seq<char>) -> bool
    decreases s.len(),
{
    if s.len() == 0 {
        true
    } else if s.last() == '\n' {
        true
    } else {
        is_white_space(s.last()) && last_line_blank(s.drop_last())
    }
}

/// The trailing-line rule: the content is not empty and its last line,
/// trimmed, is empty.
pub open spec fn ends_with_blank_line(s: Seq<char>) -> bool {
    s.len() > 0 && last_line_blank(s)
}

fn white_space(c: char) -> (r: bool)
    ensures
        r == is_white_space(c),
{
    let u = c as u32;
    (0x09 <= u && u <= 0x0d) || u == 0x20 || u == 0x85 || u == 0xa0 || u == 0x1680 || (0x2000
        <= u && u <= 0x200a) || u == 0x2028 || u == 0x2029 || u == 0x202f || u == 0x205f || u
        == 0x3000
}

/// Whether `content` meets the trailing-line rule.
pub fn ends_with_empty_line(content: &str) -> (r: bool)
    ensures
        r == ends_with_blank_line(content@),
{
    let mut blank = true;
    let mut seen = false;
    for c in it: content.chars()
        invariant
            it.seq() == content@,
            blank == last_line_blank(content@.take(it.index() as int)),
            seen == (it.index() > 0),
    {
        proof {
            let s = content@.take(it.index() as int + 1);
            assert(s.drop_last() == content@.take(it.index() as int));
        }
        blank = c == '\n' || (white_space(c) && blank);
        seen = true;
    }
    assert(content@.take(content@.len() as int) == content@);
    seen && blank
}

/// The paths of the readable files whose content breaks the trailing-line
/// rule, in their order; unreadable files are left out.
pub open spec fn lacking_blank_line(files: Seq<SourceFile>) -> Seq<String>
    decreases files.len(),
{
    if files.len() == 0 {
        seq![]
    } else {
        let rest = lacking_blank_line(files.drop_last());
        let f = files.last();
        if f.content is Some && !ends_with_blank_line(f.content->Some_0@) {
            rest.push(f.path)
        } else {
            rest
        }
    }
}

/// The paths of the files that do not end in a blank line. A file whose
/// content could not be read is skipped, not reported.
pub fn no_empty_line(files: Vec<SourceFile>) -> (r: Vec<String>)
    ensures
        r@ == lacking_blank_line(files@),
{
    let mut out: Vec<String> = Vec::new();
    for i in 0..files.len()
        invariant
            out@ == lacking_blank_line(files@.take(i as int)),
    {
        proof {
            assert(files@.take(i + 1).drop_last() == files@.take(i as int));
        }
        let f = &files[i];
        if let Some(c) = &f.content {
            if !ends_with_empty_line(c.as_str()) {
                out.push(f.path.clone());
            }
        }
    }
    assert(files@.take(files.len() as int) == files@);
    out
}

} // verus!
