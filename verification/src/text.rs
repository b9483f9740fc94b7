//! Small verified text helpers the renderer and the expression compiler
//! share: decimal formatting and string-literal escaping.

use vstd::prelude::*;
use vstd::string::StrSliceExecFns;
use vstd::string::StringExecFns;

verus! {

/// The decimal digit character for a value below ten.
pub open spec fn digit_char(d: nat) -> char
    recommends
        d < 10,
{
    if d == 0 {
        '0'
    } else if d == 1 {
        '1'
    } else if d == 2 {
        '2'
    } else if d == 3 {
        '3'
    } else if d == 4 {
        '4'
    } else if d == 5 {
        '5'
    } else if d == 6 {
        '6'
    } else if d == 7 {
        '7'
    } else if d == 8 {
        '8'
    } else {
        '9'
    }
}

/// The decimal textual form of `n`: most significant digit first, no sign,
/// no leading zero except for zero itself.
pub open spec fn dec_view(n: nat) -> Seq<char>
    decreases n,
{
    if n < 10 {
        seq![digit_char(n)]
    } else {
        dec_view(n / 10) + seq![digit_char(n % 10)]
    }
}

/// Appends the decimal form of `n` to `out`.
pub fn push_u64(n: u64, out: &mut String)
    ensures
        final(out)@ == old(out)@ + dec_view(n as nat),
    decreases n,
{
    if n >= 10 {
        push_u64(n / 10, out);
    }
    let d = n % 10;
    match d {
        0 => out.append("0"),
        1 => out.append("1"),
        2 => out.append("2"),
        3 => out.append("3"),
        4 => out.append("4"),
        5 => out.append("5"),
        6 => out.append("6"),
        7 => out.append("7"),
        8 => out.append("8"),
        _ => out.append("9"),
    }
    proof {
        reveal_strlit("0");
        reveal_strlit("1");
        reveal_strlit("2");
        reveal_strlit("3");
        reveal_strlit("4");
        reveal_strlit("5");
        reveal_strlit("6");
        reveal_strlit("7");
        reveal_strlit("8");
        reveal_strlit("9");
        if n < 10 {
            assert(old(out)@ + dec_view(n as nat) =~= final(out)@);
        } else {
            assert(old(out)@ + dec_view(n as nat) =~= final(out)@);
        }
    }
}

/// The decimal form of `n` as a fresh string.
pub fn u64_to_string(n: u64) -> (r: String)
    ensures
        r@ == dec_view(n as nat),
{
    let mut out = String::new();
    push_u64(n, &mut out);
    proof {
        assert(out@ =~= dec_view(n as nat));
    }
    out
}

/// How one character is written inside a C++ double-quoted string literal:
/// quote, backslash and the common control characters get an escape
/// sequence, everything else stands for itself.
pub open spec fn escape_char(c: char) -> Seq<char> {
    if c == '"' {
        seq!['\\', '"']
    } else if c == '\\' {
        seq!['\\', '\\']
    } else if c == '\n' {
        seq!['\\', 'n']
    } else if c == '\r' {
        seq!['\\', 'r']
    } else if c == '\t' {
        seq!['\\', 't']
    } else {
        seq![c]
    }
}

/// The whole character sequence escaped for a C++ string literal.
pub open spec fn escape_view(s: Seq<char>) -> Seq<char>
    decreases s.len(),
{
    if s.len() == 0 {
        Seq::empty()
    } else {
        escape_char(s[0]) + escape_view(s.skip(1))
    }
}

/// `escape_view` distributes over splitting the input at any position.
pub proof fn lemma_escape_view_split(s: Seq<char>, i: int)
    requires
        0 <= i <= s.len(),
    ensures
        escape_view(s) == escape_view(s.take(i)) + escape_view(s.skip(i)),
    decreases i,
{
    if i == 0 {
        assert(s.take(0) =~= Seq::<char>::empty());
        assert(s.skip(0) =~= s);
        assert(escape_view(s.take(0)) + escape_view(s.skip(0)) =~= escape_view(s));
    } else {
        lemma_escape_view_split(s.skip(1), i - 1);
        assert(s.take(i)[0] == s[0]);
        assert(s.take(i).skip(1) =~= s.skip(1).take(i - 1));
        assert(s.skip(1).skip(i - 1) =~= s.skip(i));
        assert(escape_view(s.take(i)) + escape_view(s.skip(i)) =~= escape_view(s));
    }
}

/// Appends `s` escaped for a C++ string literal to `out`.
pub fn push_escaped(s: &str, out: &mut String)
    ensures
        final(out)@ == old(out)@ + escape_view(s@),
{
    let len = s.unicode_len();
    let mut i: usize = 0;
    while i < len
        invariant
            i <= len,
            len == s@.len(),
            out@ == old(out)@ + escape_view(s@.take(i as int)),
        decreases len - i,
    {
        let c = s.get_char(i);
        match c {
            '"' => out.append("\\\""),
            '\\' => out.append("\\\\"),
            '\n' => out.append("\\n"),
            '\r' => out.append("\\r"),
            '\t' => out.append("\\t"),
            _ => out.append(s.substring_char(i, i + 1)),
        }
        proof {
            reveal_strlit("\\\"");
            reveal_strlit("\\\\");
            reveal_strlit("\\n");
            reveal_strlit("\\r");
            reveal_strlit("\\t");
            lemma_escape_view_split(s@.take(i + 1), i as int);
            assert(s@.take(i + 1).take(i as int) =~= s@.take(i as int));
            assert(s@.take(i + 1).skip(i as int) =~= seq![s@[i as int]]);
            let c = s@[i as int];
            assert(escape_view(Seq::<char>::empty()) == Seq::<char>::empty());
            assert(seq![c].skip(1) =~= Seq::<char>::empty());
            assert(seq![c].len() == 1 && seq![c][0] == c);
            assert(escape_view(seq![c]) == escape_char(c) + escape_view(seq![c].skip(1)));
            assert(escape_view(seq![c]) =~= escape_char(c));
            assert(s@.subrange(i as int, i + 1) =~= seq![s@[i as int]]);
            assert(out@ =~= old(out)@ + escape_view(s@.take(i + 1)));
        }
        i = i + 1;
    }
    proof {
        assert(s@.take(len as int) =~= s@);
    }
}

} // verus!
