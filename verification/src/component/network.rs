//! The name of the wireless network in use.
use vstd::prelude::*;
use vstd::string::StringExecFns;
use crate::text::{chars_of, has_prefix, lemma_line_end, line_at, line_end, lines, lines_from, split_lines, string_of, strip_prefix, strip_prefix_chars, views_of};
use super::{empty_output, push_empty_output};

verus! {

/// The SSID of the active wireless connection, or a placeholder.
#[derive(Debug, Clone, Copy, PartialEq, Eq)]
pub struct NetworkSSID;

/// The rest of the first line, from `k` on, that starts with `prefix`.
pub open spec fn first_stripped(ls: Seq<Seq<char>>, prefix: Seq<char>, k: int) -> Option<Seq<char>>
    decreases ls.len() - k,
{
    if k < 0 || k >= ls.len() {
        None
    } else {
        match strip_prefix(ls[k], prefix) {
            Some(rest) => Some(rest),
            None => first_stripped(ls, prefix, k + 1),
        }
    }
}

/// The SSID in the output of `nmcli -t -f active,ssid dev wifi`: the rest
/// of the first line that starts with `yes:`.
pub open spec fn active_ssid_spec(output: Seq<char>) -> Option<Seq<char>> {
    first_stripped(lines(output), "yes:"@, 0)
}

/// Finds the SSID of the active connection in the output of
/// `nmcli -t -f active,ssid dev wifi`.
pub fn active_ssid(output: &str) -> (r: Option<String>)
    ensures
        match r {
            Some(s) => active_ssid_spec(output@) == Some(s@),
            None => active_ssid_spec(output@) is None,
        },
{
    let chars = chars_of(output);
    let ls = split_lines(chars.as_slice());
    let prefix = chars_of("yes:");
    let mut k: usize = 0;
    while k < ls.len()
        invariant
            k <= ls@.len(),
            views_of(ls@) == lines(output@),
            prefix@ == "yes:"@,
            active_ssid_spec(output@) == first_stripped(views_of(ls@), prefix@, k as int),
        decreases ls@.len() - k,
    {
        assert(views_of(ls@)[k as int] == ls@[k as int]@);
        match strip_prefix_chars(ls[k].as_slice(), prefix.as_slice()) {
            Some(rest) => {
                return Some(string_of(rest.as_slice()));
            },
            None => {
                k = k + 1;
            },
        }
    }
    None
}

/// Counting line ends in `pre + b` from inside `b` is counting them in `b`.
proof fn lemma_line_end_shift(pre: Seq<char>, b: Seq<char>, i: int)
    requires
        0 <= i <= b.len(),
    ensures
        line_end(pre + b, pre.len() + i) == pre.len() + line_end(b, i),
    decreases b.len() - i,
{
    let s = pre + b;
    if i < b.len() {
        assert(s[pre.len() + i] == b[i]);
        if b[i] != '\n' {
            lemma_line_end_shift(pre, b, i + 1);
        }
    }
}

/// The lines of `pre + b` from a position inside `b` are the lines of `b`
/// from there.
proof fn lemma_lines_shift(pre: Seq<char>, b: Seq<char>, i: int)
    requires
        0 <= i,
    ensures
        lines_from(pre + b, pre.len() + i) == lines_from(b, i),
    decreases b.len() - i,
{
    let s = pre + b;
    let k = pre.len() + i;
    if i < b.len() {
        lemma_line_end_shift(pre, b, i);
        lemma_line_end(b, i);
        let jb = line_end(b, i);
        let j = line_end(s, k);
        assert(j == pre.len() + jb);
        if jb < b.len() && jb > i {
            assert(s[j - 1] == b[jb - 1]);
        }
        assert(s.subrange(k, j) =~= b.subrange(i, jb));
        if jb > i {
            assert(s.subrange(k, j - 1) =~= b.subrange(i, jb - 1));
        }
        assert(line_at(s, k) == line_at(b, i));
        if jb < b.len() {
            lemma_lines_shift(pre, b, jb + 1);
        }
    }
}

/// A line before others that does not start with the prefix is passed over.
proof fn lemma_first_stripped_skip(x: Seq<char>, ls: Seq<Seq<char>>, p: Seq<char>, k: int)
    requires
        0 <= k,
        strip_prefix(x, p) is None,
    ensures
        first_stripped(seq![x] + ls, p, k + 1) == first_stripped(ls, p, k),
    decreases ls.len() - k,
{
    if k < ls.len() {
        assert((seq![x] + ls)[k + 1] == ls[k]);
        lemma_first_stripped_skip(x, ls, p, k + 1);
    }
}

/// The first line of `l + rest`, where `l` holds no line end and is followed
/// by one (or by nothing), is `l` without a carriage return that ends it.
proof fn lemma_first_line(l: Seq<char>, rest: Seq<char>)
    requires
        l.len() > 0 || rest.len() > 0,
        forall|i: int| 0 <= i < l.len() ==> #[trigger] l[i] != '\n',
        rest.len() > 0 ==> rest[0] == '\n',
    ensures
        line_end(l + rest, 0) == l.len(),
        lines(l + rest).len() >= 1,
        lines(l + rest)[0] == (if rest.len() > 0 && l.len() > 0 && l.last() == '\r' {
            l.take(l.len() - 1)
        } else {
            l
        }),
{
    let s = l + rest;
    lemma_line_end(s, 0);
    let j = line_end(s, 0);
    if j < l.len() {
        assert(s[j] == l[j]);
    }
    if j > l.len() {
        assert(s[l.len() as int] == rest[0]);
    }
    assert(j == l.len());
    if j > 0 && j < s.len() {
        assert(s[j - 1] == l.last());
    }
    assert(s.subrange(0, j) =~= l);
    if j > 0 {
        assert(s.subrange(0, j - 1) =~= l.take(l.len() - 1));
    }
}

/// A line `yes:` followed by a name gives the whole name, spaces and all, up
/// to the end of that line: the active network is the rest of the first
/// line that starts with `yes:`.
pub proof fn law_ssid_is_rest_of_active_line(name: Seq<char>, rest: Seq<char>)
    requires
        forall|i: int| 0 <= i < name.len() ==> #[trigger] name[i] != '\n',
        rest.len() > 0 ==> rest[0] == '\n' && (name.len() == 0 || name.last() != '\r'),
    ensures
        active_ssid_spec("yes:"@ + name + rest) == Some(name),
{
    reveal_strlit("yes:");
    let l = "yes:"@ + name;
    assert(forall|i: int| 0 <= i < l.len() ==> #[trigger] l[i] != '\n') by {
        assert forall|i: int| 0 <= i < l.len() implies #[trigger] l[i] != '\n' by {
            if i >= 4 {
                assert(l[i] == name[i - 4]);
            }
        }
    }
    if rest.len() > 0 {
        if name.len() > 0 {
            assert(l.last() == name.last());
        } else {
            assert(l =~= "yes:"@);
            assert(l.last() == ':');
        }
    }
    lemma_first_line(l, rest);
    assert("yes:"@ + name + rest == l + rest);
    assert(l.take(4) =~= "yes:"@);
    assert(l.skip(4) =~= name);
}

/// A line that does not start with `yes:` is passed over: the answer is that
/// of the lines after it.
pub proof fn law_inactive_line_is_skipped(line: Seq<char>, rest: Seq<char>)
    requires
        forall|i: int| 0 <= i < line.len() ==> #[trigger] line[i] != '\n',
        !has_prefix(line, "yes:"@),
    ensures
        active_ssid_spec(line + seq!['\n'] + rest) == active_ssid_spec(rest),
{
    reveal_strlit("yes:");
    let pre = line + seq!['\n'];
    let s = pre + rest;
    lemma_first_line(line, seq!['\n'] + rest);
    assert(line + (seq!['\n'] + rest) == s);
    let first = lines(s)[0];
    assert(!has_prefix(first, "yes:"@)) by {
        if first != line && has_prefix(first, "yes:"@) {
            assert(line.take(4) =~= first.take(4));
        }
    }
    lemma_line_end(s, 0);
    assert(line_end(s, 0) < s.len());
    lemma_lines_shift(pre, rest, 0);
    assert(lines(s) =~= seq![first] + lines(rest));
    lemma_first_stripped_skip(first, lines(rest), "yes:"@, 0);
}

/// What the network shows: the SSID, or a placeholder without one.
pub open spec fn ssid_text(ssid: Option<String>) -> Seq<char> {
    match ssid {
        Some(s) => s@,
        None => empty_output(),
    }
}

impl NetworkSSID {
    /// Appends what the network shows.
    pub fn render(&self, ssid: &Option<String>, buf: &mut String)
        ensures
            final(buf)@ == old(buf)@ + ssid_text(*ssid),
    {
        match ssid {
            Some(s) => buf.append(s.as_str()),
            None => push_empty_output(buf),
        }
    }
}

} // verus!
