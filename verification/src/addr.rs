//! Mailbox addresses: a login and a domain joined as `login@domain`,
//! with validated parsing, formatting, and the laws tying the two together.

use vstd::prelude::*;

use crate::text::{str_chars, string_from_chars, subvec};

verus! {

/// A mailbox address. `login` never contains `'@'` when the value comes
/// from `parse` or from a validated login; the textual form is
/// `login@domain`, splitting again at the first `'@'`.
#[derive(Debug, Clone)]
pub struct MailAddr {
    pub login: String,
    pub domain: String,
}

/// Why a piece of text is not a mailbox address.
#[derive(Clone, Copy, PartialEq, Eq, Structural, Debug)]
pub enum ParseMailAddrError {
    MissingAtSign,
    EmptyLogin,
    EmptyDomain,
}

/// Why a piece of text is not acceptable as a login.
#[derive(Clone, Copy, PartialEq, Eq, Structural, Debug)]
pub enum LoginError {
    Empty,
    ContainsAtSign,
}

/// The canonical text of an address with the given parts.
pub open spec fn addr_text(login: Seq<char>, domain: Seq<char>) -> Seq<char> {
    login + seq!['@'] + domain
}

/// Index of the first `'@'` in `s`, if any.
pub open spec fn first_at(s: Seq<char>) -> Option<int>
    decreases s.len(),
{
    if s.len() == 0 {
        None
    } else if s[0] == '@' {
        Some(0int)
    } else {
        match first_at(s.drop_first()) {
            Some(i) => Some(i + 1),
            None => None,
        }
    }
}

/// What parsing a piece of text yields: the login and domain around the
/// first `'@'`, or the error naming what is missing or empty.
pub open spec fn parse_addr(s: Seq<char>) -> Result<(Seq<char>, Seq<char>), ParseMailAddrError> {
    match first_at(s) {
        None => Err(ParseMailAddrError::MissingAtSign),
        Some(i) => {
            if i == 0 {
                Err(ParseMailAddrError::EmptyLogin)
            } else if i == s.len() - 1 {
                Err(ParseMailAddrError::EmptyDomain)
            } else {
                Ok((s.take(i), s.skip(i + 1)))
            }
        },
    }
}

/// A login is acceptable when it is non-empty and free of `'@'`.
pub open spec fn login_ok(s: Seq<char>) -> bool {
    s.len() > 0 && !s.contains('@')
}

/// A well-formed address: non-empty parts, no `'@'` in the login.
pub open spec fn addr_wf(a: MailAddr) -> bool {
    login_ok(a.login@) && a.domain@.len() > 0
}

proof fn lemma_first_at_found(s: Seq<char>, i: int)
    requires
        0 <= i < s.len(),
        s[i] == '@',
        forall|k: int| 0 <= k < i ==> s[k] != '@',
    ensures
        first_at(s) == Some(i),
    decreases s.len(),
{
    if i > 0 {
        lemma_first_at_found(s.drop_first(), i - 1);
    }
}

proof fn lemma_first_at_none(s: Seq<char>)
    requires
        forall|k: int| 0 <= k < s.len() ==> s[k] != '@',
    ensures
        first_at(s) is None,
    decreases s.len(),
{
    if s.len() > 0 {
        lemma_first_at_none(s.drop_first());
    }
}

proof fn lemma_first_at_props(s: Seq<char>)
    ensures
        match first_at(s) {
            None => forall|k: int| 0 <= k < s.len() ==> s[k] != '@',
            Some(i) => 0 <= i < s.len() && s[i] == '@' && (forall|k: int|
                0 <= k < i ==> s[k] != '@'),
        },
    decreases s.len(),
{
    if s.len() > 0 && s[0] != '@' {
        let t = s.drop_first();
        lemma_first_at_props(t);
        assert(forall|k: int| 0 <= k < t.len() ==> t[k] == s[k + 1]);
        match first_at(t) {
            None => {
                assert forall|k: int| 0 <= k < s.len() implies s[k] != '@' by {
                    if k > 0 {
                        assert(s[k] == t[k - 1]);
                    }
                };
            },
            Some(i) => {
                assert(s[i + 1] == t[i]);
                assert forall|k: int| 0 <= k < i + 1 implies s[k] != '@' by {
                    if k > 0 {
                        assert(s[k] == t[k - 1]);
                    }
                };
            },
        }
    }
}

impl MailAddr {
    /// Splits `s` at the first `'@'` into login and domain; everything
    /// after that separator, further `'@'`s included, is the domain.
    pub fn parse(s: &str) -> (r: Result<MailAddr, ParseMailAddrError>)
        ensures
            (parse_addr(s@) matches Ok(p) ==> r matches Ok(a) && a.login@ == p.0 && a.domain@
                == p.1 && addr_wf(a)),
            (parse_addr(s@) matches Err(e) ==> r matches Err(e2) && e2 == e),
    {
        let v = str_chars(s);
        let n = v.len();
        let mut i: usize = 0;
        while i < n && v[i] != '@'
            invariant
                0 <= i <= n == v@.len(),
                v@ == s@,
                forall|k: int| 0 <= k < i ==> v@[k] != '@',
            decreases n - i,
        {
            i = i + 1;
        }
        if i == n {
            proof {
                lemma_first_at_none(s@);
            }
            Err(ParseMailAddrError::MissingAtSign)
        } else {
            proof {
                lemma_first_at_found(s@, i as int);
            }
            if i == 0 {
                Err(ParseMailAddrError::EmptyLogin)
            } else if i == n - 1 {
                Err(ParseMailAddrError::EmptyDomain)
            } else {
                let login_chars = subvec(&v, 0, i);
                let domain_chars = subvec(&v, i + 1, n);
                let a = MailAddr {
                    login: string_from_chars(&login_chars),
                    domain: string_from_chars(&domain_chars),
                };
                proof {
                    assert(a.login@ =~= s@.take(i as int));
                    assert(a.domain@ =~= s@.skip(i as int + 1));
                    assert(!a.login@.contains('@')) by {
                        assert(forall|k: int|
                            0 <= k < a.login@.len() ==> a.login@[k] == s@[k] && s@[k] != '@');
                    };
                }
                Ok(a)
            }
        }
    }

    /// The canonical text `login@domain` of this address.
    pub fn to_text(&self) -> (r: String)
        ensures
            r@ == addr_text(self.login@, self.domain@),
    {
        let mut r = self.login.clone();
        r.append("@");
        r.append(self.domain.as_str());
        proof {
            reveal_strlit("@");
            assert(r@ =~= addr_text(self.login@, self.domain@));
        }
        r
    }
}

/// Gates interactive input: a login must be non-empty and `'@'`-free
/// before it is joined with a separately chosen domain.
pub fn validate_login(s: &str) -> (r: Result<(), LoginError>)
    ensures
        (r matches Ok(u) <==> login_ok(s@)),
        (r matches Err(e) && e == LoginError::Empty <==> s@.len() == 0),
        (r matches Err(e) && e == LoginError::ContainsAtSign <==> s@.len() > 0 && s@.contains(
            '@',
        )),
{
    let v = str_chars(s);
    let n = v.len();
    if n == 0 {
        return Err(LoginError::Empty);
    }
    let mut i: usize = 0;
    while i < n
        invariant
            0 <= i <= n == v@.len(),
            v@ == s@,
            forall|k: int| 0 <= k < i ==> v@[k] != '@',
        decreases n - i,
    {
        if v[i] == '@' {
            proof {
                assert(s@.contains('@')) by {
                    assert(s@[i as int] == '@');
                };
            }
            return Err(LoginError::ContainsAtSign);
        }
        i = i + 1;
    }
    proof {
        assert(!s@.contains('@')) by {
            assert(forall|k: int| 0 <= k < s@.len() ==> s@[k] != '@');
        };
    }
    Ok(())
}

/// Round trip: formatting a well-formed pair of parts and parsing the
/// text back yields exactly the same parts.
pub proof fn lemma_addr_round_trip(login: Seq<char>, domain: Seq<char>)
    requires
        login_ok(login),
        domain.len() > 0,
    ensures
        parse_addr(addr_text(login, domain)) == Ok::<_, ParseMailAddrError>((login, domain)),
{
    let s = addr_text(login, domain);
    assert(s[login.len() as int] == '@');
    assert forall|k: int| 0 <= k < login.len() implies s[k] != '@' by {
        assert(s[k] == login[k]);
        assert(!login.contains('@'));
    };
    lemma_first_at_found(s, login.len() as int);
    assert(s.take(login.len() as int) =~= login);
    assert(s.skip(login.len() as int + 1) =~= domain);
}

/// The other direction of the round trip: formatting the parts that
/// parsing yields gives back exactly the parsed text.
pub proof fn lemma_parse_then_format(s: Seq<char>)
    requires
        parse_addr(s) is Ok,
    ensures
        addr_text(parse_addr(s)->Ok_0.0, parse_addr(s)->Ok_0.1) == s,
{
    lemma_first_at_props(s);
    match first_at(s) {
        Some(i) => {
            assert(addr_text(s.take(i), s.skip(i + 1)) =~= s);
        },
        None => {},
    }
}

/// Failure partition of address parsing: which error comes on which
/// inputs, and that only the first `'@'` acts as the separator.
pub proof fn lemma_parse_addr_partition(s: Seq<char>)
    ensures
        ((parse_addr(s) matches Err(e) && e == ParseMailAddrError::MissingAtSign) <==> !s.contains(
            '@',
        )),
        ((parse_addr(s) matches Err(e) && e == ParseMailAddrError::EmptyLogin) <==> (s.len() > 0
            && s[0] == '@')),
        ((parse_addr(s) matches Err(e) && e == ParseMailAddrError::EmptyDomain) <==> (s.len() >= 2
            && s[0] != '@' && s.last() == '@' && !s.drop_last().contains('@'))),
        (parse_addr(s) matches Ok(p) ==> (first_at(s) matches Some(i) && 0 < i < s.len() - 1
            && p.0 == s.take(i) && p.1 == s.skip(i + 1) && !p.0.contains('@'))),
{
    lemma_first_at_props(s);
    match first_at(s) {
        None => {
            assert(!s.contains('@'));
        },
        Some(i) => {
            assert(s.contains('@')) by {
                assert(s[i] == '@');
            };
            if i == 0 {
            } else if i == s.len() - 1 {
                assert(s.last() == '@');
                assert(!s.drop_last().contains('@')) by {
                    assert(forall|k: int| 0 <= k < s.len() - 1 ==> s.drop_last()[k] == s[k]);
                };
            } else {
                assert(parse_addr(s) matches Ok(p) && p.0 == s.take(i) && !s.take(i).contains('@'))
                    by {
                    assert(forall|k: int| 0 <= k < i ==> s.take(i)[k] == s[k]);
                };
                if s.len() >= 2 && s[0] != '@' && s.last() == '@' && !s.drop_last().contains('@') {
                    assert(s.drop_last()[i] == s[i]);
                }
            }
        },
    }
}

} // verus!
