//! Option-name normalization and the fixed set of sensitive option names.

use vstd::prelude::*;
use crate::text::chars_to_string;
use crate::text::str_eq;

verus! {

/// A character that may appear in a declared option name: ASCII letters,
/// digits, and the underscore.
pub open spec fn is_name_char(c: char) -> bool {
    ('a' <= c && c <= 'z') || ('A' <= c && c <= 'Z') || ('0' <= c && c <= '9') || c == '_'
}

/// Uppercase an ASCII lowercase letter; leave any other character alone.
pub open spec fn norm_char(c: char) -> char {
    if 'a' <= c && c <= 'z' {
        (((c as u8) - 0x20) as char)
    } else {
        c
    }
}

/// The normalized key of an option name: upper-cased, with all
/// underscores removed.
pub open spec fn normalized(s: Seq<char>) -> Seq<char>
    decreases s.len(),
{
    if s.len() == 0 {
        Seq::empty()
    } else if s[0] == '_' {
        normalized(s.drop_first())
    } else {
        seq![norm_char(s[0])] + normalized(s.drop_first())
    }
}

/// Normalization distributes over concatenation.
pub proof fn lemma_normalized_append(a: Seq<char>, b: Seq<char>)
    ensures
        normalized(a + b) == normalized(a) + normalized(b),
    decreases a.len(),
{
    if a.len() == 0 {
        assert(a + b =~= b);
        assert(normalized(a) + normalized(b) =~= normalized(b));
    } else {
        assert((a + b).drop_first() =~= a.drop_first() + b);
        lemma_normalized_append(a.drop_first(), b);
        if a[0] == '_' {
        } else {
            assert(seq![norm_char(a[0])] + (normalized(a.drop_first()) + normalized(b))
                =~= (seq![norm_char(a[0])] + normalized(a.drop_first())) + normalized(b));
        }
    }
}

/// Extending the input by one character extends the normalized key by at
/// most one character.
proof fn lemma_normalized_step(s: Seq<char>, i: int)
    requires
        0 <= i < s.len(),
    ensures
        normalized(s.take(i + 1)) == normalized(s.take(i)) + (if s[i] == '_' {
            Seq::<char>::empty()
        } else {
            seq![norm_char(s[i])]
        }),
{
    assert(s.take(i + 1) =~= s.take(i) + seq![s[i]]);
    lemma_normalized_append(s.take(i), seq![s[i]]);
    let single = seq![s[i]];
    assert(single.len() == 1);
    assert(single[0] == s[i]);
    assert(single.drop_first() =~= Seq::<char>::empty());
    assert(normalized(Seq::<char>::empty()) == Seq::<char>::empty());
    if s[i] == '_' {
        assert(normalized(single) == normalized(single.drop_first()));
        assert(normalized(s.take(i)) + Seq::<char>::empty() =~= normalized(s.take(i)));
    } else {
        assert(normalized(single) == seq![norm_char(single[0])] + normalized(single.drop_first()));
        assert(seq![norm_char(s[i])] + Seq::<char>::empty() =~= seq![norm_char(s[i])]);
    }
}

/// The normalized form of an option name: upper-cased, with all
/// underscores removed.
pub fn normalize_name(name: &str) -> (r: String)
    ensures
        r@ == normalized(name@),
{
    let n = name.unicode_len();
    let mut out: Vec<char> = Vec::new();
    let mut i: usize = 0;
    while i < n
        invariant
            n == name@.len(),
            i <= n,
            out@ == normalized(name@.take(i as int)),
        decreases n - i,
    {
        let c = name.get_char(i);
        proof {
            lemma_normalized_step(name@, i as int);
        }
        if c != '_' {
            let u: char = if 'a' <= c && c <= 'z' {
                ((c as u8) - 0x20) as char
            } else {
                c
            };
            out.push(u);
        }
        i += 1;
    }
    proof {
        assert(name@.take(n as int) =~= name@);
    }
    chars_to_string(&out)
}

/// An option whose value must be masked when logged.
pub open spec fn spec_sensitive(name: Seq<char>) -> bool {
    name == "dbPassword"@ || name == "icesecretread"@ || name == "icesecretwrite"@
        || name == "serverpassword"@ || name == "registerpassword"@ || name == "sslPassPhrase"@
}

/// The fixed list of sensitive option names.
pub fn sensitive_configs() -> (r: [&'static str; 6])
    ensures
        r@[0]@ == "dbPassword"@,
        r@[1]@ == "icesecretread"@,
        r@[2]@ == "icesecretwrite"@,
        r@[3]@ == "serverpassword"@,
        r@[4]@ == "registerpassword"@,
        r@[5]@ == "sslPassPhrase"@,
{
    [
        "dbPassword",
        "icesecretread",
        "icesecretwrite",
        "serverpassword",
        "registerpassword",
        "sslPassPhrase",
    ]
}

/// Whether `search` is one of the six strings in `slice`.
pub fn slice_contains(slice: &[&'static str; 6], search: &str) -> (r: bool)
    ensures
        r == exists|k: int| 0 <= k < 6 && slice@[k]@ == search@,
{
    let mut i: usize = 0;
    while i < 6
        invariant
            i <= 6,
            forall|k: int| 0 <= k < i ==> slice@[k]@ != search@,
        decreases 6 - i,
    {
        if str_eq(slice[i], search) {
            proof {
                assert(slice@[i as int]@ == search@);
            }
            return true;
        }
        i += 1;
    }
    false
}

/// Whether the named option's value must be masked when logged.
pub fn is_sensitive(name: &str) -> (r: bool)
    ensures
        r == spec_sensitive(name@),
{
    let sensitive = sensitive_configs();
    let r = slice_contains(&sensitive, name);
    proof {
        if spec_sensitive(name@) {
            if name@ == "dbPassword"@ {
                assert(sensitive@[0]@ == name@);
            } else if name@ == "icesecretread"@ {
                assert(sensitive@[1]@ == name@);
            } else if name@ == "icesecretwrite"@ {
                assert(sensitive@[2]@ == name@);
            } else if name@ == "serverpassword"@ {
                assert(sensitive@[3]@ == name@);
            } else if name@ == "registerpassword"@ {
                assert(sensitive@[4]@ == name@);
            } else {
                assert(sensitive@[5]@ == name@);
            }
        }
        if r {
            let k = choose|k: int| 0 <= k < 6 && sensitive@[k]@ == name@;
            assert(spec_sensitive(name@));
        }
    }
    r
}

} // verus!
