//! Repositories on a hosting service, and the names of their merged pull requests.
use vstd::prelude::*;

use crate::versioner::{digits_value, is_digit, is_digits, maximal_run, scan_digits};

verus! {

/// Why a pull request's number could not be read from its name.
#[derive(Debug, PartialEq, Eq)]
pub enum RepositoryError {
    /// The name does not end with a reference such as `(#12)`.
    InvalidMessage(String),
    /// The number of the reference does not fit in a `u64`.
    ParsingError(String),
}

/// A repository on GitHub, named by its owner and its name.
#[derive(Clone, Debug, Default)]
pub struct GithubRepository {
    /// The owner of the repository.
    pub owner: String,
    /// The name of the repository.
    pub repo: String,
}

/// Whether `c` is an ASCII lowercase letter.
pub open spec fn is_lower(c: char) -> bool {
    'a' <= c && c <= 'z'
}

/// The reference that ends a squash-merged pull request's name: `(` then lowercase
/// letters, `#`, digits and `)`, such as `(#12)`.
pub open spec fn reference_text(letters: Seq<char>, digits: Seq<char>) -> Seq<char> {
    seq!['('] + letters + seq!['#'] + digits + seq![')']
}

/// `name` ends with the reference made of `letters` and `digits`, as the pattern
/// `\([a-z]*#([0-9]+)\)$` finds it.
pub open spec fn ends_with_reference(name: Seq<char>, letters: Seq<char>, digits: Seq<char>) -> bool {
    let r = reference_text(letters, digits);
    &&& is_digits(digits)
    &&& forall|i: int| 0 <= i < letters.len() ==> is_lower(#[trigger] letters[i])
    &&& r.len() <= name.len()
    &&& name.subrange(name.len() - r.len(), name.len() as int) == r
}

/// `name` ends with a reference whose number is `n`.
pub open spec fn refers_to(name: Seq<char>, n: nat) -> bool {
    exists|letters: Seq<char>, digits: Seq<char>|
        #![trigger ends_with_reference(name, letters, digits)]
        ends_with_reference(name, letters, digits) && digits_value(digits) == n
}

/// `name` ends with a reference.
pub open spec fn has_reference(name: Seq<char>) -> bool {
    exists|letters: Seq<char>, digits: Seq<char>| ends_with_reference(name, letters, digits)
}

/// `[start, end)` is the longest run of lowercase letters of `s` that ends at `end`.
pub open spec fn maximal_letters_before(s: Seq<char>, start: int, end: int) -> bool {
    &&& 0 <= start <= end <= s.len()
    &&& forall|i: int| start <= i < end ==> is_lower(#[trigger] s[i])
    &&& (start == 0 || !is_lower(s[start - 1]))
}

/// `[start, end)` is the longest run of digits of `s` that ends at `end`.
pub open spec fn maximal_digits_before(s: Seq<char>, start: int, end: int) -> bool {
    &&& 0 <= start <= end <= s.len()
    &&& forall|i: int| start <= i < end ==> is_digit(#[trigger] s[i])
    &&& (start == 0 || !is_digit(s[start - 1]))
}

/// Where the parts of a reference stand in a name that ends with it.
proof fn lemma_reference_parts(name: Seq<char>, letters: Seq<char>, digits: Seq<char>)
    requires
        ends_with_reference(name, letters, digits),
    ensures
        ({
            let close = name.len() - 1;
            let hash = close - 1 - digits.len();
            let open = hash - 1 - letters.len();
            &&& 0 <= open
            &&& name[close] == ')'
            &&& name[hash] == '#'
            &&& name[open] == '('
            &&& maximal_digits_before(name, hash + 1, close)
            &&& maximal_letters_before(name, open + 1, hash)
            &&& maximal_run(name, hash + 1, close)
            &&& digits == name.subrange(hash + 1, close)
        }),
{
    let r = reference_text(letters, digits);
    let base = name.len() - r.len();
    let close = name.len() - 1;
    let hash = close - 1 - digits.len();
    let open = hash - 1 - letters.len();
    assert(open == base);
    assert(name[close] == r[r.len() - 1]);
    assert(name[hash] == r[hash - base]);
    assert(name[open] == r[0]);
    assert forall|i: int| hash + 1 <= i < close implies is_digit(#[trigger] name[i]) by {
        assert(name[i] == r[i - base]);
        assert(r[i - base] == digits[i - hash - 1]);
    }
    assert forall|i: int| open + 1 <= i < hash implies is_lower(#[trigger] name[i]) by {
        assert(name[i] == r[i - base]);
        assert(r[i - base] == letters[i - open - 1]);
    }
    assert(digits =~= name.subrange(hash + 1, close)) by {
        assert forall|i: int| 0 <= i < digits.len() implies digits[i] == name[hash + 1 + i] by {
            assert(name[hash + 1 + i] == r[hash + 1 + i - base]);
        }
    }
}

proof fn lemma_digits_before_unique(s: Seq<char>, a: int, b: int, end: int)
    requires
        maximal_digits_before(s, a, end),
        maximal_digits_before(s, b, end),
    ensures
        a == b,
{
    if a < b {
        assert(is_digit(s[b - 1]));
    } else if b < a {
        assert(is_digit(s[a - 1]));
    }
}

proof fn lemma_letters_before_unique(s: Seq<char>, a: int, b: int, end: int)
    requires
        maximal_letters_before(s, a, end),
        maximal_letters_before(s, b, end),
    ensures
        a == b,
{
    if a < b {
        assert(is_lower(s[b - 1]));
    } else if b < a {
        assert(is_lower(s[a - 1]));
    }
}

impl GithubRepository {
    /// Reads the number of a squash-merged pull request from its name, which ends with a
    /// reference such as `Issue to solve (#6)`: `(`, lowercase letters, `#`, the number
    /// and `)`.
    ///
    /// Fails with `InvalidMessage` when the name does not end so, and with
    /// `ParsingError` when the number exceeds `u64::MAX`.
    pub fn get_pull_request_number_from_its_name(pull_request_name: &str) -> (r: Result<u64, RepositoryError>)
        ensures
            r matches Ok(n) ==> refers_to(pull_request_name@, n as nat),
            r is Ok <==> exists|n: u64| refers_to(pull_request_name@, n as nat),
            r is Err ==> (r->Err_0 is InvalidMessage <==> !has_reference(pull_request_name@)),
    {
        let ghost s = pull_request_name@;
        let len = pull_request_name.unicode_len();
        if len == 0 || pull_request_name.get_char(len - 1) != ')' {
            proof {
                assert forall|l: Seq<char>, d: Seq<char>| !ends_with_reference(s, l, d) by {
                    if ends_with_reference(s, l, d) {
                        lemma_reference_parts(s, l, d);
                    }
                }
            }
            return Err(RepositoryError::InvalidMessage(String::from_str("no closing parenthesis")));
        }
        let close = len - 1;
        let mut j: usize = close;
        while j > 0
            invariant_except_break
                j <= close,
                s == pull_request_name@,
                close == s.len() - 1,
                forall|i: int| j <= i < close ==> is_digit(#[trigger] s[i]),
            ensures
                maximal_digits_before(s, j as int, close as int),
            decreases j,
        {
            let c = pull_request_name.get_char(j - 1);
            if !('0' <= c && c <= '9') {
                break;
            }
            j = j - 1;
        }
        if j == close || j == 0 || pull_request_name.get_char(j - 1) != '#' {
            proof {
                assert forall|l: Seq<char>, d: Seq<char>| !ends_with_reference(s, l, d) by {
                    if ends_with_reference(s, l, d) {
                        lemma_reference_parts(s, l, d);
                        lemma_digits_before_unique(s, j as int, close - d.len(), close as int);
                    }
                }
            }
            return Err(RepositoryError::InvalidMessage(String::from_str("no number after #")));
        }
        let hash = j - 1;
        let mut k: usize = hash;
        while k > 0
            invariant_except_break
                k <= hash,
                s == pull_request_name@,
                hash < s.len(),
                forall|i: int| k <= i < hash ==> is_lower(#[trigger] s[i]),
            ensures
                maximal_letters_before(s, k as int, hash as int),
            decreases k,
        {
            let c = pull_request_name.get_char(k - 1);
            if !('a' <= c && c <= 'z') {
                break;
            }
            k = k - 1;
        }
        if k == 0 || pull_request_name.get_char(k - 1) != '(' {
            proof {
                assert forall|l: Seq<char>, d: Seq<char>| !ends_with_reference(s, l, d) by {
                    if ends_with_reference(s, l, d) {
                        lemma_reference_parts(s, l, d);
                        lemma_digits_before_unique(s, j as int, close - d.len(), close as int);
                        lemma_letters_before_unique(s, k as int, hash - l.len(), hash as int);
                    }
                }
            }
            return Err(RepositoryError::InvalidMessage(String::from_str("no opening parenthesis")));
        }
        let (end, value) = scan_digits(pull_request_name, j, len);
        let ghost letters = s.subrange(k as int, hash as int);
        let ghost digits = s.subrange(j as int, close as int);
        proof {
            assert(end == close) by {
                if end < close {
                    assert(is_digit(s[end as int]));
                } else if end > close {
                    assert(is_digit(s[close as int]));
                }
            }
            let r = reference_text(letters, digits);
            assert(s.subrange(s.len() - r.len(), s.len() as int) =~= r) by {
                assert(r.len() == close - k + 2);
            }
            assert(ends_with_reference(s, letters, digits));
            assert forall|l: Seq<char>, d: Seq<char>| #[trigger] ends_with_reference(s, l, d) implies d
                == digits by {
                lemma_reference_parts(s, l, d);
                lemma_digits_before_unique(s, j as int, close - d.len(), close as int);
            }
        }
        match value {
            Some(n) => {
                assert(refers_to(s, n as nat));
                Ok(n)
            },
            None => {
                proof {
                    assert forall|n: u64| !refers_to(s, n as nat) by {
                        if refers_to(s, n as nat) {
                            let (l, d) = choose|l: Seq<char>, d: Seq<char>|
                                ends_with_reference(s, l, d) && digits_value(d) == n as nat;
                            assert(d == digits);
                        }
                    }
                }
                Err(RepositoryError::ParsingError(String::from_str("number beyond u64")))
            },
        }
    }

    /// The address of the repository's page, `https://github.com/<owner>/<repo>`.
    pub fn get_url(&self) -> (r: String)
        ensures
            r@ == "https://github.com/"@ + self.owner@ + "/"@ + self.repo@,
    {
        let mut url = String::from_str("https://github.com/");
        url.append(self.owner.as_str());
        url.append("/");
        url.append(self.repo.as_str());
        url
    }
}

} // verus!
