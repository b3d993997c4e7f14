//! Lines of an environment file.

use vstd::prelude::*;
use vstd::string::StrSliceExecFns;
use crate::text::{find_char, first_index, lemma_first_index};

verus! {

/// Reads the lines of an environment file, each of the form `KEY=VALUE`.
pub struct EnvironmentLoader {}

/// The key of a line: what stands before its first `=`.
pub open spec fn line_key(line: Seq<char>) -> Seq<char> {
    line.subrange(0, first_index(line, '='))
}

/// The value of a line: all that follows its first `=`, further `=`
/// included.
pub open spec fn line_value(line: Seq<char>) -> Seq<char> {
    line.subrange(first_index(line, '=') + 1, line.len() as int)
}

/// The view of a key and its value.
pub open spec fn pair_view(pair: Option<(String, String)>) -> Option<(Seq<char>, Seq<char>)> {
    match pair {
        Some((key, value)) => Some((key@, value@)),
        None => None,
    }
}

impl EnvironmentLoader {
    /// Reads every line of a file: the variables that it names, each with
    /// its value, in the order of the lines. One line without `=` spoils
    /// the file.
    pub fn new(lines: &Vec<String>) -> (out: Option<Vec<(String, String)>>)
        ensures
            out is Some <==> forall|i: int| 0 <= i < lines.len() ==> (#[trigger] lines[i])@.contains('='),
            out matches Some(pairs) ==> pairs.len() == lines.len() && forall|i: int|
                0 <= i < lines.len() ==> (#[trigger] pairs[i]).0@ == line_key(lines[i]@)
                    && pairs[i].1@ == line_value(lines[i]@),
    {
        let mut pairs: Vec<(String, String)> = Vec::new();
        let mut i: usize = 0;
        while i < lines.len()
            invariant
                i <= lines.len(),
                pairs.len() == i,
                forall|j: int| 0 <= j < i ==> (#[trigger] lines[j])@.contains('='),
                forall|j: int|
                    0 <= j < i ==> (#[trigger] pairs[j]).0@ == line_key(lines[j]@) && pairs[j].1@
                        == line_value(lines[j]@),
            decreases lines.len() - i,
        {
            match EnvironmentLoader::to_env(&lines[i]) {
                Some(pair) => {
                    pairs.push(pair);
                },
                None => {
                    return None;
                },
            }
            i = i + 1;
        }
        Some(pairs)
    }

    /// Takes a line apart into the variable that it names and the value
    /// that it gives. A line without `=` names none.
    pub fn to_env(env_line: &String) -> (out: Option<(String, String)>)
        ensures
            pair_view(out) == if env_line@.contains('=') {
                Some((line_key(env_line@), line_value(env_line@)))
            } else {
                None
            },
    {
        let line = env_line.as_str();
        match find_char(line, '=') {
            Some(at) => {
                proof {
                    lemma_first_index(line@, '=');
                }
                let total = line.unicode_len();
                let key = line.substring_char(0, at).to_owned();
                let value = line.substring_char(at + 1, total).to_owned();
                Some((key, value))
            },
            None => None,
        }
    }
}

} // verus!
