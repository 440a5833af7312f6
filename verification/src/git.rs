//! What `git log` says of the last commit that touched a file, taken apart.
//!
//! The line is the one printed for the format `%H %cs %ce %cn`: hash, date,
//! e-mail address and name, each parted from the next by one space, with a
//! newline at the end. Only the name may hold spaces.

use crate::text::{chars_of, find_char, find_from, string_of};
use vstd::prelude::*;
use vstd::utf8::{decode_utf8, valid_utf8};

verus! {

/// The raw output of the command.
pub struct CommitData(pub Vec<u8>);

/// The four fields of the line.
#[derive(Debug, PartialEq, Eq)]
pub struct CommitInfo {
    pub hash: String,
    pub date: String,
    pub email: String,
    pub name: String,
}

/// The mathematical value of a [`CommitInfo`].
pub struct CommitInfoModel {
    pub hash: Seq<char>,
    pub date: Seq<char>,
    pub email: Seq<char>,
    pub name: Seq<char>,
}

impl View for CommitInfo {
    type V = CommitInfoModel;

    open spec fn view(&self) -> CommitInfoModel {
        CommitInfoModel {
            hash: self.hash@,
            date: self.date@,
            email: self.email@,
            name: self.name@,
        }
    }
}

/// The line that the output holds: its text without the newline at its end;
/// none if the output is not UTF-8 or does not end in a newline.
pub open spec fn commit_line(output: Seq<u8>) -> Option<Seq<char>> {
    if valid_utf8(output) && decode_utf8(output).len() > 0 && decode_utf8(output).last() == '\n' {
        Some(decode_utf8(output).drop_last())
    } else {
        None
    }
}

/// The fields of a line: it is cut at its first three spaces; none if it has
/// fewer.
pub open spec fn commit_fields(line: Seq<char>) -> Option<CommitInfoModel> {
    let first = find_char(line, ' ', 0);
    let second = find_char(line, ' ', first + 1);
    let third = find_char(line, ' ', second + 1);
    if first < line.len() && second < line.len() && third < line.len() {
        Some(
            CommitInfoModel {
                hash: line.subrange(0, first),
                date: line.subrange(first + 1, second),
                email: line.subrange(second + 1, third),
                name: line.subrange(third + 1, line.len() as int),
            },
        )
    } else {
        None
    }
}

/// The arguments with which `git` prints the line for the last commit that
/// touched `file`.
pub fn log_arguments(file: &str) -> (args: Vec<String>)
    ensures
        args@.len() == 5,
        args@[0]@ == "log"@,
        args@[1]@ == "-1"@,
        args@[2]@ == "--format=%H %cs %ce %cn"@,
        args@[3]@ == "--"@,
        args@[4]@ == file@,
{
    let mut args: Vec<String> = Vec::new();
    args.push("log".to_owned());
    args.push("-1".to_owned());
    args.push("--format=%H %cs %ce %cn".to_owned());
    args.push("--".to_owned());
    args.push(file.to_owned());
    args
}

/// `core::str::from_utf8` accepts exactly the byte strings that are valid
/// UTF-8, and gives the text they encode.
#[verifier::external_body]
fn utf8_text(bytes: &Vec<u8>) -> (text: Option<&str>)
    ensures
        match text {
            Some(t) => valid_utf8(bytes@) && t@ == decode_utf8(bytes@),
            None => !valid_utf8(bytes@),
        },
{
    core::str::from_utf8(bytes.as_slice()).ok()
}

/// Cuts a line into its four fields.
pub fn split_fields(line: &Vec<char>) -> (info: Option<CommitInfo>)
    ensures
        match info {
            Some(i) => commit_fields(line@) == Some(i@),
            None => commit_fields(line@) is None,
        },
{
    let n = line.len();
    let first = find_from(line, ' ', 0);
    if first >= n {
        return None;
    }
    let second = find_from(line, ' ', first + 1);
    if second >= n {
        return None;
    }
    let third = find_from(line, ' ', second + 1);
    if third >= n {
        return None;
    }
    Some(
        CommitInfo {
            hash: string_of(line, 0, first),
            date: string_of(line, first + 1, second),
            email: string_of(line, second + 1, third),
            name: string_of(line, third + 1, n),
        },
    )
}

impl CommitData {
    /// The fields of the line that the output holds; none if the output is
    /// not one line of UTF-8 text with at least four fields.
    pub fn info(&self) -> (info: Option<CommitInfo>)
        ensures
            match info {
                Some(i) => commit_line(self.0@) matches Some(line) && commit_fields(line) == Some(
                    i@,
                ),
                None => commit_line(self.0@) matches Some(line) ==> commit_fields(line) is None,
            },
    {
        let text = match utf8_text(&self.0) {
            Some(text) => text,
            None => {
                return None;
            },
        };
        let mut line = chars_of(text);
        match line.pop() {
            Some(last) => {
                if last != '\n' {
                    return None;
                }
            },
            None => {
                return None;
            },
        }
        split_fields(&line)
    }
}

} // verus!
