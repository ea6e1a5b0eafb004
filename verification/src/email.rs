//! Parsing of the SMTP path syntax `[<]user@domain[>]` into a user and a
//! domain part.  Both parts must come out non-empty, or parsing fails.

use vstd::prelude::*;

verus! {

/// The first position at or after `i` holding `c`, or the length of `s` if
/// there is none.
pub open spec fn first_from(s: Seq<char>, i: int, c: char) -> int
    recommends
        0 <= i <= s.len(),
    decreases s.len() - i when 0 <= i <= s.len()
{
    if i >= s.len() {
        s.len() as int
    } else if s[i] == c {
        i
    } else {
        first_from(s, i + 1, c)
    }
}

/// Where `first_from` lands: within bounds, on a `c`, with none before it.
pub proof fn lemma_first_from(s: Seq<char>, i: int, c: char)
    requires
        0 <= i <= s.len(),
    ensures
        i <= first_from(s, i, c) <= s.len(),
        first_from(s, i, c) < s.len() ==> s[first_from(s, i, c)] == c,
        forall|j: int| i <= j < first_from(s, i, c) ==> s[j] != c,
    decreases s.len() - i,
{
    if i < s.len() && s[i] != c {
        lemma_first_from(s, i + 1, c);
    }
}

/// The user part: everything before the first `@` (not counting position 0),
/// with a leading `<` dropped.
pub open spec fn parsed_user(s: Seq<char>) -> Seq<char>
    recommends
        s.len() > 0,
{
    let at = first_from(s, 1, '@');
    if s[0] == '<' {
        s.subrange(1, at)
    } else {
        s.subrange(0, at)
    }
}

/// The domain part: everything after the first `@`, up to the first `>` that
/// follows it.
pub open spec fn parsed_domain(s: Seq<char>) -> Seq<char>
    recommends
        s.len() > 0,
{
    let at = first_from(s, 1, '@');
    if at >= s.len() {
        Seq::empty()
    } else {
        s.subrange(at + 1, first_from(s, at + 1, '>'))
    }
}

/// Whether the input parses: non-empty, with non-empty user and domain parts.
pub open spec fn email_ok(s: Seq<char>) -> bool {
    s.len() > 0 && parsed_user(s).len() > 0 && parsed_domain(s).len() > 0
}

/// A parsed address.  Only the user part is used for routing; the domain is
/// validated but otherwise unused.
pub struct Email {
    pub user: String,
    pub domain: String,
}

impl Email {
    /// Parse the SMTP path syntax.  Succeeds exactly on inputs whose user and
    /// domain parts are both non-empty.
    pub fn try_from(smtp_email: &str) -> (r: Result<Email, &'static str>)
        ensures
            match r {
                Ok(e) => {
                    &&& email_ok(smtp_email@)
                    &&& e.user@ == parsed_user(smtp_email@)
                    &&& e.domain@ == parsed_domain(smtp_email@)
                    &&& e.user@.len() > 0
                    &&& e.domain@.len() > 0
                },
                Err(m) => {
                    &&& !email_ok(smtp_email@)
                    &&& if smtp_email@.len() == 0 {
                        m@ == "First char was empty, unable to make Email"@
                    } else {
                        m@ == "Unable to parse user or domain for Email"@
                    }
                },
            },
    {
        let ghost s = smtp_email@;
        let len = smtp_email.unicode_len();
        if len == 0 {
            return Err("First char was empty, unable to make Email");
        }
        proof {
            lemma_first_from(s, 1, '@');
        }
        let ghost at = first_from(s, 1, '@');
        let mut user = String::new();
        let mut domain = String::new();
        let first = smtp_email.get_char(0);
        if first != '<' {
            user.push(first);
        }
        let mut i: usize = 1;
        while i < len && smtp_email.get_char(i) != '@'
            invariant
                s == smtp_email@,
                1 <= i <= len,
                len == s.len(),
                at == first_from(s, 1, '@'),
                i <= at,
                i < at ==> s[i as int] != '@',
                user@ == (if s[0] == '<' {
                    s.subrange(1, i as int)
                } else {
                    s.subrange(0, i as int)
                }),
            decreases len - i,
        {
            proof {
                lemma_first_from(s, 1, '@');
            }
            user.push(smtp_email.get_char(i));
            proof {
                if s[0] == '<' {
                    assert(user@ =~= s.subrange(1, i + 1));
                } else {
                    assert(user@ =~= s.subrange(0, i + 1));
                }
            }
            i = i + 1;
        }
        proof {
            assert(i == at);
            assert(user@ == parsed_user(s));
        }
        if i < len {
            // skip the '@' itself
            i = i + 1;
            proof {
                lemma_first_from(s, at + 1, '>');
            }
            let ghost gt = first_from(s, at + 1, '>');
            while i < len && smtp_email.get_char(i) != '>'
                invariant
                    s == smtp_email@,
                    at + 1 <= i <= len,
                    len == s.len(),
                    at == first_from(s, 1, '@'),
                    1 <= at < len,
                    gt == first_from(s, at + 1, '>'),
                    i <= gt,
                    i < gt ==> s[i as int] != '>',
                    domain@ == s.subrange(at + 1, i as int),
                decreases len - i,
            {
                proof {
                    lemma_first_from(s, at + 1, '>');
                }
                domain.push(smtp_email.get_char(i));
                proof {
                    assert(domain@ =~= s.subrange(at + 1, i + 1));
                }
                i = i + 1;
            }
            proof {
                assert(i == gt);
                assert(domain@ == parsed_domain(s));
            }
        } else {
            proof {
                assert(at == len);
                assert(domain@ =~= parsed_domain(s));
            }
        }
        if user.unicode_len() == 0 || domain.unicode_len() == 0 {
            Err("Unable to parse user or domain for Email")
        } else {
            Ok(Email { user, domain })
        }
    }
}

/// A well-formed address, with or without the angle brackets, parses back to
/// exactly its user and domain parts; in particular parsing succeeds.
pub proof fn lemma_parse_wellformed(u: Seq<char>, d: Seq<char>, bracketed: bool)
    requires
        u.len() > 0,
        d.len() > 0,
        u[0] != '<',
        forall|i: int| 0 <= i < u.len() ==> u[i] != '@',
        forall|i: int| 0 <= i < d.len() ==> d[i] != '@' && d[i] != '>',
    ensures
        ({
            let s = if bracketed {
                seq!['<'] + u + seq!['@'] + d + seq!['>']
            } else {
                u + seq!['@'] + d
            };
            &&& email_ok(s)
            &&& parsed_user(s) == u
            &&& parsed_domain(s) == d
        }),
{
    let s = if bracketed {
        seq!['<'] + u + seq!['@'] + d + seq!['>']
    } else {
        u + seq!['@'] + d
    };
    let off: int = if bracketed {
        1
    } else {
        0
    };
    let at_pos = off + u.len();
    assert(s[at_pos] == '@');
    assert forall|j: int| 1 <= j < at_pos implies s[j] != '@' by {
        assert(s[j] == u[j - off]);
    }
    lemma_first_from(s, 1, '@');
    let at = first_from(s, 1, '@');
    assert(at == at_pos) by {
        if at < at_pos {
            assert(s[at] != '@');
        }
        if at > at_pos {
            assert(s[at_pos] != '@');
        }
    }
    assert(parsed_user(s) =~= u);
    lemma_first_from(s, at + 1, '>');
    let gt = first_from(s, at + 1, '>');
    let gt_pos = at_pos + 1 + d.len();
    assert forall|j: int| at + 1 <= j < gt_pos implies s[j] != '>' by {
        assert(s[j] == d[j - at_pos - 1]);
    }
    assert(gt == gt_pos) by {
        if gt < gt_pos {
            assert(s[gt] != '>');
        }
        if gt > gt_pos {
            if bracketed {
                assert(s[gt_pos] == '>');
            } else {
                assert(gt <= s.len());
            }
        }
    }
    assert(parsed_domain(s) =~= d);
}

/// An input with no `@` past its first character never parses: its domain
/// part is empty.
pub proof fn lemma_parse_missing_at(s: Seq<char>)
    requires
        forall|i: int| 1 <= i < s.len() ==> s[i] != '@',
    ensures
        !email_ok(s),
{
    if s.len() > 0 {
        lemma_first_from(s, 1, '@');
        let at = first_from(s, 1, '@');
        if at < s.len() {
            assert(s[at] == '@');
        }
        assert(parsed_domain(s).len() == 0);
    }
}

} // verus!
