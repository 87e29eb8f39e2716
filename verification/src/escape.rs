//! Escaping for the chat transport's markdown dialect: every reserved
//! character is preceded by a backslash so the text renders literally.
use vstd::prelude::*;

verus! {

/// The characters the markdown dialect reserves.
pub open spec fn is_md_reserved(c: char) -> bool {
    ||| c == '_'
    ||| c == '*'
    ||| c == '['
    ||| c == ']'
    ||| c == '('
    ||| c == ')'
    ||| c == '~'
    ||| c == '`'
    ||| c == '>'
    ||| c == '#'
    ||| c == '+'
    ||| c == '-'
    ||| c == '='
    ||| c == '|'
    ||| c == '{'
    ||| c == '}'
    ||| c == '.'
    ||| c == '!'
}

/// How one character is rendered: reserved characters gain a backslash.
pub open spec fn escaped_char(c: char) -> Seq<char> {
    if is_md_reserved(c) {
        seq!['\\', c]
    } else {
        seq![c]
    }
}

/// The escape of `s` from position `i` on.
pub open spec fn escape_from(s: Seq<char>, i: int) -> Seq<char>
    decreases s.len() - i,
{
    if i < 0 || i >= s.len() {
        Seq::empty()
    } else {
        escaped_char(s[i]) + escape_from(s, i + 1)
    }
}

/// The escaped form of `s`.
pub open spec fn escape_seq(s: Seq<char>) -> Seq<char> {
    escape_from(s, 0)
}

/// Escaping changes nothing on text free of reserved characters.
pub proof fn lemma_escape_plain_text(s: Seq<char>)
    requires
        forall|i: int| 0 <= i < s.len() ==> !is_md_reserved(s[i]),
    ensures
        escape_seq(s) == s,
{
    lemma_escape_from_plain(s, 0);
    assert(escape_seq(s) =~= s);
}

proof fn lemma_escape_from_plain(s: Seq<char>, i: int)
    requires
        0 <= i <= s.len(),
        forall|j: int| 0 <= j < s.len() ==> !is_md_reserved(s[j]),
    ensures
        escape_from(s, i) == s.skip(i),
    decreases s.len() - i,
{
    if i >= s.len() {
        assert(escape_from(s, i) =~= s.skip(i));
    } else {
        lemma_escape_from_plain(s, i + 1);
        assert(escape_from(s, i) =~= s.skip(i));
    }
}

/// Escapes the character sequence `chars`.
pub fn escape_chars(chars: &Vec<char>) -> (v: Vec<char>)
    ensures
        v@ == escape_seq(chars@),
{
    let mut out: Vec<char> = Vec::new();
    let mut i: usize = 0;
    while i < chars.len()
        invariant
            i <= chars@.len(),
            escape_seq(chars@) == out@ + escape_from(chars@, i as int),
        decreases chars@.len() - i,
    {
        let c = chars[i];
        if is_md_reserved_exec(c) {
            out.push('\\');
            out.push(c);
        } else {
            out.push(c);
        }
        proof {
            assert(escape_seq(chars@) =~= out@ + escape_from(chars@, i + 1));
        }
        i += 1;
    }
    proof {
        assert(escape_seq(chars@) =~= out@);
    }
    out
}

fn is_md_reserved_exec(c: char) -> (r: bool)
    ensures
        r == is_md_reserved(c),
{
    c == '_' || c == '*' || c == '[' || c == ']' || c == '(' || c == ')' || c == '~' || c == '`'
        || c == '>' || c == '#' || c == '+' || c == '-' || c == '=' || c == '|' || c == '{'
        || c == '}' || c == '.' || c == '!'
}

} // verus!
