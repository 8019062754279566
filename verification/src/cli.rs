//! Parsing of the serial console's commands.

use vstd::prelude::*;
use vstd::string::*;

verus! {

/// A console command.
#[derive(Debug, PartialEq, Eq, Clone, Copy)]
pub enum Command {
    Scan,
    Read,
    Write,
    Dump,
    Status,
    Help,
    Unknown,
}

/// Rust's `char::is_whitespace`: the Unicode `White_Space` property.
pub open spec fn is_white_space(c: char) -> bool {
    let v = c as u32;
    ||| 0x09 <= v <= 0x0D
    ||| v == 0x20
    ||| v == 0x85
    ||| v == 0xA0
    ||| v == 0x1680
    ||| 0x2000 <= v <= 0x200A
    ||| v == 0x2028
    ||| v == 0x2029
    ||| v == 0x202F
    ||| v == 0x205F
    ||| v == 0x3000
}

/// `s` without its leading white space.
pub open spec fn trim_start(s: Seq<char>) -> Seq<char>
    decreases s.len(),
{
    if s.len() > 0 && is_white_space(s[0]) {
        trim_start(s.drop_first())
    } else {
        s
    }
}

/// `s` without its trailing white space.
pub open spec fn trim_end(s: Seq<char>) -> Seq<char>
    decreases s.len(),
{
    if s.len() > 0 && is_white_space(s.last()) {
        trim_end(s.drop_last())
    } else {
        s
    }
}

/// `s` without leading and trailing white space, as `str::trim` gives it.
pub open spec fn trim(s: Seq<char>) -> Seq<char> {
    trim_end(trim_start(s))
}

/// The command that a trimmed word names: each command in capitals or in
/// lower case, anything else `Unknown`.
pub open spec fn command_of_word(w: Seq<char>) -> Command {
    if w == seq!['S', 'C', 'A', 'N'] || w == seq!['s', 'c', 'a', 'n'] {
        Command::Scan
    } else if w == seq!['R', 'E', 'A', 'D'] || w == seq!['r', 'e', 'a', 'd'] {
        Command::Read
    } else if w == seq!['W', 'R', 'I', 'T', 'E'] || w == seq!['w', 'r', 'i', 't', 'e'] {
        Command::Write
    } else if w == seq!['D', 'U', 'M', 'P'] || w == seq!['d', 'u', 'm', 'p'] {
        Command::Dump
    } else if w == seq!['S', 'T', 'A', 'T', 'U', 'S'] || w == seq!['s', 't', 'a', 't', 'u', 's'] {
        Command::Status
    } else if w == seq!['H', 'E', 'L', 'P'] || w == seq!['h', 'e', 'l', 'p'] {
        Command::Help
    } else {
        Command::Unknown
    }
}

fn is_white_space_char(c: char) -> (r: bool)
    ensures
        r == is_white_space(c),
{
    let v = c as u32;
    (0x09 <= v && v <= 0x0D) || v == 0x20 || v == 0x85 || v == 0xA0 || v == 0x1680 || (0x2000
        <= v && v <= 0x200A) || v == 0x2028 || v == 0x2029 || v == 0x202F || v == 0x205F || v
        == 0x3000
}

proof fn lemma_trim_start_skip(s: Seq<char>, i: int)
    requires
        0 <= i <= s.len(),
        forall|k: int| 0 <= k < i ==> is_white_space(#[trigger] s[k]),
    ensures
        trim_start(s) == trim_start(s.subrange(i, s.len() as int)),
    decreases i,
{
    if i > 0 {
        assert(s.drop_first() == s.subrange(1, s.len() as int));
        lemma_trim_start_skip(s.drop_first(), i - 1);
        assert(s.drop_first().subrange(i - 1, s.drop_first().len() as int) == s.subrange(
            i,
            s.len() as int,
        ));
    } else {
        assert(s.subrange(0, s.len() as int) == s);
    }
}

proof fn lemma_trim_end_cut(s: Seq<char>, j: int)
    requires
        0 <= j <= s.len(),
        forall|k: int| j <= k < s.len() ==> is_white_space(#[trigger] s[k]),
    ensures
        trim_end(s) == trim_end(s.subrange(0, j)),
    decreases s.len() - j,
{
    if j < s.len() {
        assert(s.drop_last() == s.subrange(0, s.len() - 1));
        lemma_trim_end_cut(s.drop_last(), j);
        assert(s.drop_last().subrange(0, j) == s.subrange(0, j));
    } else {
        assert(s.subrange(0, j) == s);
    }
}

/// Whether the characters `start..end` of `s` spell `word`.
fn spells(s: &str, start: usize, end: usize, word: &[char]) -> (r: bool)
    requires
        start <= end <= s@.len(),
    ensures
        r == (s@.subrange(start as int, end as int) == word@),
{
    if end - start != word.len() {
        return false;
    }
    let mut k: usize = 0;
    while k < word.len()
        invariant
            end - start == word.len(),
            start <= end <= s@.len(),
            k <= word.len(),
            forall|m: int| 0 <= m < k ==> s@[start + m] == word@[m],
        decreases word.len() - k,
    {
        if s.get_char(start + k) != word[k] {
            assert(s@.subrange(start as int, end as int)[k as int] != word@[k as int]);
            return false;
        }
        k = k + 1;
    }
    assert(s@.subrange(start as int, end as int) =~= word@);
    true
}

/// Parses a console line into a command: the line is trimmed of white space
/// at both ends, and each command is accepted in capitals or in lower case.
pub fn parse(input: &str) -> (c: Command)
    ensures
        c == command_of_word(trim(input@)),
{
    let n = input.unicode_len();
    let mut start: usize = 0;
    while start < n && is_white_space_char(input.get_char(start))
        invariant
            n == input@.len(),
            start <= n,
            forall|k: int| 0 <= k < start ==> is_white_space(#[trigger] input@[k]),
        decreases n - start,
    {
        start = start + 1;
    }
    let mut end: usize = n;
    while end > start && is_white_space_char(input.get_char(end - 1))
        invariant
            n == input@.len(),
            start <= end <= n,
            forall|k: int| end <= k < n ==> is_white_space(#[trigger] input@[k]),
        decreases end - start,
    {
        end = end - 1;
    }
    proof {
        let s = input@;
        lemma_trim_start_skip(s, start as int);
        let t = s.subrange(start as int, n as int);
        if start < n {
            assert(t[0] == s[start as int]);
            assert(!is_white_space(t[0]));
        }
        assert(trim_start(t) == t);
        assert forall|k: int| end - start <= k < t.len() implies is_white_space(#[trigger] t[k]) by {
            assert(t[k] == s[start + k]);
        }
        lemma_trim_end_cut(t, end - start);
        let u = t.subrange(0, end - start);
        assert(u =~= s.subrange(start as int, end as int));
        if end > start {
            assert(u.last() == s[end - 1]);
        }
        assert(trim_end(u) == u);
    }
    if spells(input, start, end, &['S', 'C', 'A', 'N']) || spells(input, start, end, &['s', 'c', 'a', 'n']) {
        Command::Scan
    } else if spells(input, start, end, &['R', 'E', 'A', 'D']) || spells(input, start, end, &['r', 'e', 'a', 'd']) {
        Command::Read
    } else if spells(input, start, end, &['W', 'R', 'I', 'T', 'E']) || spells(input, start, end, &['w', 'r', 'i', 't', 'e']) {
        Command::Write
    } else if spells(input, start, end, &['D', 'U', 'M', 'P']) || spells(input, start, end, &['d', 'u', 'm', 'p']) {
        Command::Dump
    } else if spells(input, start, end, &['S', 'T', 'A', 'T', 'U', 'S']) || spells(input, start, end, &['s', 't', 'a', 't', 'u', 's']) {
        Command::Status
    } else if spells(input, start, end, &['H', 'E', 'L', 'P']) || spells(input, start, end, &['h', 'e', 'l', 'p']) {
        Command::Help
    } else {
        Command::Unknown
    }
}

proof fn lemma_trim_start_all_white(s: Seq<char>)
    requires
        forall|k: int| 0 <= k < s.len() ==> is_white_space(#[trigger] s[k]),
    ensures
        trim_start(s) == Seq::<char>::empty(),
    decreases s.len(),
{
    if s.len() > 0 {
        assert forall|k: int| 0 <= k < s.drop_first().len() implies is_white_space(
            #[trigger] s.drop_first()[k],
        ) by {
            assert(s.drop_first()[k] == s[k + 1]);
        }
        lemma_trim_start_all_white(s.drop_first());
    }
}

proof fn lemma_trim_start_append(w: Seq<char>, post: Seq<char>)
    ensures
        trim_start(w + post) == if trim_start(w).len() > 0 {
            trim_start(w) + post
        } else {
            trim_start(post)
        },
    decreases w.len(),
{
    if w.len() == 0 {
        assert(w + post =~= post);
    } else if is_white_space(w[0]) {
        assert((w + post).drop_first() =~= w.drop_first() + post);
        lemma_trim_start_append(w.drop_first(), post);
    } else {
        assert((w + post)[0] == w[0]);
    }
}

/// A command line means the same with white space added before and after
/// it: the command is read from the trimmed line.
pub proof fn law_parse_ignores_surrounding_white_space(pre: Seq<char>, line: Seq<char>, post: Seq<char>)
    requires
        forall|k: int| 0 <= k < pre.len() ==> is_white_space(#[trigger] pre[k]),
        forall|k: int| 0 <= k < post.len() ==> is_white_space(#[trigger] post[k]),
    ensures
        command_of_word(trim(pre + line + post)) == command_of_word(trim(line)),
        trim(pre + line + post) == trim(line),
{
    let s = pre + line + post;
    assert forall|k: int| 0 <= k < pre.len() implies is_white_space(#[trigger] s[k]) by {
        assert(s[k] == pre[k]);
    }
    lemma_trim_start_skip(s, pre.len() as int);
    assert(s.subrange(pre.len() as int, s.len() as int) =~= line + post);
    lemma_trim_start_append(line, post);
    if trim_start(line).len() > 0 {
        let t = trim_start(line) + post;
        assert forall|k: int| trim_start(line).len() <= k < t.len() implies is_white_space(#[trigger] t[k]) by {
            assert(t[k] == post[k - trim_start(line).len()]);
        }
        lemma_trim_end_cut(t, trim_start(line).len() as int);
        assert(t.subrange(0, trim_start(line).len() as int) =~= trim_start(line));
    } else {
        lemma_trim_start_all_white(post);
        assert(trim_start(line) =~= Seq::<char>::empty());
    }
}

} // verus!
