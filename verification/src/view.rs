//! How a site's file is shown on the terminal: between two lines that name it.

use vstd::prelude::*;
use vstd::string::StringExecFns;
use crate::order::texts;

verus! {

/// The line that opens (`word` is "Start") or closes ("End") the file
/// `file_name`.
pub open spec fn banner(word: Seq<char>, file_name: Seq<char>) -> Seq<char> {
    "---------------------- "@ + word + " of "@ + file_name + " ----------------------"@
}

/// Writes the line that opens or closes a file.
fn banner_line(word: &str, file_name: &str) -> (line: String)
    ensures
        line@ == banner(word@, file_name@),
{
    let mut line = String::from_str("---------------------- ");
    line.append(word);
    line.append(" of ");
    line.append(file_name);
    line.append(" ----------------------");
    line
}

/// The lines to print for the file `file_name` that holds `buffer`: what it
/// holds, between a line that opens it and one that closes it.
pub fn view_nginx_site(file_name: &str, buffer: String) -> (lines: Vec<String>)
    ensures
        texts(lines@) == seq![banner("Start"@, file_name@), buffer@, banner("End"@, file_name@)],
{
    let mut lines: Vec<String> = Vec::new();
    lines.push(banner_line("Start", file_name));
    lines.push(buffer);
    lines.push(banner_line("End", file_name));
    assert(texts(lines@) =~= seq![banner("Start"@, file_name@), buffer@, banner("End"@, file_name@)]);
    lines
}

} // verus!
