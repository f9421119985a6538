//! Joining texts with a separator, and the list files that `ffmpeg` reads.

use vstd::prelude::*;
use vstd::string::*;

verus! {

/// The texts one after the other, with `sep` between neighbours.
pub open spec fn joined(parts: Seq<Seq<char>>, sep: Seq<char>) -> Seq<char>
    decreases parts.len(),
{
    if parts.len() == 0 {
        Seq::empty()
    } else if parts.len() == 1 {
        parts[0]
    } else {
        joined(parts.drop_last(), sep) + sep + parts.last()
    }
}

/// The texts of a list of strings.
pub open spec fn string_texts(v: Seq<String>) -> Seq<Seq<char>> {
    Seq::new(v.len(), |i: int| v[i]@)
}

/// The strings one after the other, with `sep` between neighbours.
pub fn join_strings(parts: &Vec<String>, sep: &str) -> (r: String)
    ensures
        r@ == joined(string_texts(parts@), sep@),
{
    let mut out = String::new();
    let n = parts.len();
    let mut i: usize = 0;
    while i < n
        invariant
            n == parts@.len(),
            0 <= i <= n,
            out@ == joined(string_texts(parts@).take(i as int), sep@),
        decreases n - i,
    {
        proof {
            let t = string_texts(parts@);
            assert(t.take(i as int + 1).drop_last() =~= t.take(i as int));
            assert(t.take(i as int + 1).last() == parts@[i as int]@);
        }
        if i > 0 {
            out.append(sep);
        }
        out.append(parts[i].as_str());
        proof {
            if i == 0 {
                assert(out@ =~= parts@[0]@);
            }
        }
        i = i + 1;
    }
    proof {
        assert(string_texts(parts@).take(n as int) =~= string_texts(parts@));
    }
    out
}

/// A line of a list file for the concat demuxer. Clip lines are written
/// without the closing quote.
pub open spec fn list_line(name: Seq<char>, closing_quote: bool) -> Seq<char> {
    "file '"@ + name + if closing_quote { "'"@ } else { Seq::empty() }
}

/// The lines of a list file, one per name.
pub open spec fn list_lines(names: Seq<String>, closing_quote: bool) -> Seq<Seq<char>> {
    Seq::new(names.len(), |i: int| list_line(names[i]@, closing_quote))
}

/// The content of a list file for the concat demuxer: a `file '<name>` line for
/// each name (with the closing quote when `closing_quote`), joined by newlines.
pub fn list_file_content(names: &Vec<String>, closing_quote: bool) -> (r: String)
    ensures
        r@ == joined(list_lines(names@, closing_quote), "\n"@),
{
    let mut lines: Vec<String> = Vec::new();
    let n = names.len();
    let mut i: usize = 0;
    while i < n
        invariant
            n == names@.len(),
            0 <= i <= n,
            string_texts(lines@) =~= list_lines(names@, closing_quote).take(i as int),
        decreases n - i,
    {
        let mut line = String::from_str("file '");
        line.append(names[i].as_str());
        if closing_quote {
            line.append("'");
        }
        proof {
            if !closing_quote {
                assert(line@ =~= list_line(names@[i as int]@, closing_quote));
            } else {
                assert(line@ =~= list_line(names@[i as int]@, closing_quote));
            }
        }
        let ghost before = string_texts(lines@);
        lines.push(line);
        proof {
            assert(string_texts(lines@) =~= before.push(list_line(names@[i as int]@, closing_quote)));
        }
        i = i + 1;
    }
    proof {
        assert(list_lines(names@, closing_quote).take(n as int) =~= list_lines(names@, closing_quote));
    }
    join_strings(&lines, "\n")
}

} // verus!
