//! Reading and writing files.

use crate::text;
use crate::text_facts;
use vstd::prelude::*;

verus! {

/// Reads a file.
pub struct ReadFileTool;

/// Writes a file.
pub struct WriteFileTool;

/// The number of bytes of a file that are shown.
pub const READ_LIMIT: usize = 8000;

/// What reading a file answers: its contents, cut off where they are too long.
pub open spec fn read_answer(contents: Seq<char>) -> Seq<char> {
    if text::size(contents) > READ_LIMIT {
        text::byte_prefix(contents, READ_LIMIT as int) + "\n[truncated — file is "@
            + text::decimal(text::size(contents)) + " bytes, showing first 8000]"@
    } else {
        contents
    }
}

/// What reading a file answers. A longer file must have a character starting right
/// at the limit.
pub fn read_report(contents: &str) -> (r: String)
    requires
        text::size(contents@) > READ_LIMIT ==> text::boundary(contents@, READ_LIMIT as int),
    ensures
        r@ == read_answer(contents@),
{
    let n = text::byte_size(contents);
    if n > READ_LIMIT {
        let mut out = text::take_bytes(contents, READ_LIMIT).to_string();
        out.append("\n[truncated — file is ");
        out.append(text::to_decimal(n as u64).as_str());
        out.append(" bytes, showing first 8000]");
        out
    } else {
        contents.to_string()
    }
}

/// What writing a file answers.
pub open spec fn write_answer(path: Seq<char>, content: Seq<char>) -> Seq<char> {
    "wrote "@ + text::decimal(text::size(content)) + " bytes to "@ + path
}

/// What writing a file answers.
pub fn write_report(path: &str, content: &str) -> (r: String)
    ensures
        r@ == write_answer(path@, content@),
{
    let mut out = "wrote ".to_string();
    out.append(text::to_decimal(text::byte_size(content) as u64).as_str());
    out.append(" bytes to ");
    out.append(path);
    out
}

/// A file of up to eight thousand bytes is shown whole; of a longer one the first bytes come
/// first, and its size is told.
pub proof fn law_files_are_shown(contents: Seq<char>)
    ensures
        text::size(contents) <= 8000 ==> read_answer(contents) == contents,
        text::size(contents) > 8000 ==> text::begins_with(
            read_answer(contents),
            text::byte_prefix(contents, 8000),
        ) && text_facts::part_of(text::decimal(text::size(contents)), read_answer(contents)),
{
    let p = text::byte_prefix(contents, 8000);
    if text::size(contents) > 8000 {
        let s = read_answer(contents);
        let head = p + "\n[truncated — file is "@;
        let n = text::decimal(text::size(contents));
        assert(s.subrange(0, p.len() as int) =~= p);
        text_facts::lemma_part(head, n, " bytes, showing first 8000]"@);
        assert(s =~= head + n + " bytes, showing first 8000]"@);
    }
}

/// The answer to a write tells how much was written, and where.
pub proof fn law_writes_are_told(path: Seq<char>, content: Seq<char>)
    ensures
        text::finishes_with(write_answer(path, content), path),
        text_facts::part_of(text::decimal(text::size(content)), write_answer(path, content)),
{
    let s = write_answer(path, content);
    let n = text::decimal(text::size(content));
    assert(s.subrange(s.len() - path.len(), s.len() as int) =~= path);
    text_facts::lemma_part("wrote "@, n, " bytes to "@);
    text_facts::lemma_part_grows(n, "wrote "@ + n + " bytes to "@, path);
}

} // verus!
