use vstd::prelude::*;

verus! {

/// `i` is the position of the only `'@'` in `s`.
pub open spec fn sole_at_sign(s: Seq<char>, i: int) -> bool {
    &&& 0 <= i < s.len()
    &&& s[i] == '@'
    &&& forall|j: int| 0 <= j < s.len() && j != i ==> s[j] != '@'
}

/// The domain part (after the `'@'`) is non-empty, holds a `'.'`, and neither
/// starts nor ends with one.
pub open spec fn domain_ok(domain: Seq<char>) -> bool {
    &&& domain.len() > 0
    &&& domain.contains('.')
    &&& domain[0] != '.'
    &&& domain.last() != '.'
}

/// An address is accepted when splitting it at `'@'` yields exactly two parts,
/// the local part is non-empty, the domain part is acceptable, and the whole
/// address holds no space.
pub open spec fn valid_email(s: Seq<char>) -> bool {
    &&& exists|i: int|
        #![trigger s[i]]
        sole_at_sign(s, i) && i > 0 && domain_ok(s.subrange(i + 1, s.len() as int))
    &&& !s.contains(' ')
}

/// Checks the format of an e-mail address.
pub fn is_valid_email(email: &str) -> (ok: bool)
    ensures
        ok == valid_email(email@),
{
    let n = email.unicode_len();
    let ghost s = email@;
    // Locate the first '@', note whether a second one follows, and look for spaces.
    let mut first_at: Option<usize> = None;
    let mut second_at = false;
    let mut space = false;
    let mut k: usize = 0;
    while k < n
        invariant
            n == s.len(),
            s == email@,
            k <= n,
            first_at is None ==> forall|j: int| 0 <= j < k ==> s[j] != '@',
            first_at matches Some(p) ==> p < k && s[p as int] == '@' && (forall|j: int|
                0 <= j < p ==> s[j] != '@'),
            first_at is None ==> !second_at,
            second_at ==> first_at is Some,
            first_at matches Some(p) ==> (second_at <==> exists|q: int|
                #![trigger s[q]]
                p < q < k && s[q] == '@'),
            space <==> exists|j: int| #![trigger s[j]] 0 <= j < k && s[j] == ' ',
        decreases n - k,
    {
        let c = email.get_char(k);
        if c == '@' {
            match first_at {
                None => {
                    first_at = Some(k);
                },
                Some(p) => {
                    assert(s[k as int] == '@');
                    second_at = true;
                },
            }
        }
        if c == ' ' {
            space = true;
        }
        k = k + 1;
    }
    if space {
        assert(s.contains(' ')) by {
            let j = choose|j: int| #![trigger s[j]] 0 <= j < n && s[j] == ' ';
            assert(s[j] == ' ');
        }
        return false;
    }
    assert(!s.contains(' '));
    let p = match first_at {
        None => {
            assert(!valid_email(s)) by {
                if exists|i: int| #![trigger s[i]] sole_at_sign(s, i) {
                    let i = choose|i: int| #![trigger s[i]] sole_at_sign(s, i);
                    assert(s[i] == '@');
                }
            }
            return false;
        },
        Some(p) => p,
    };
    if second_at {
        assert(!valid_email(s)) by {
            let q = choose|q: int| #![trigger s[q]] p < q < n && s[q] == '@';
            if exists|i: int| #![trigger s[i]] sole_at_sign(s, i) {
                let i = choose|i: int| #![trigger s[i]] sole_at_sign(s, i);
                if i == p {
                    assert(s[q] == '@');
                } else {
                    assert(s[p as int] == '@');
                }
            }
        }
        return false;
    }
    assert(sole_at_sign(s, p as int)) by {
        assert forall|j: int| 0 <= j < s.len() && j != p implies s[j] != '@' by {
            if j > p {
                assert(!(p < j < n && s[j] == '@'));
            }
        }
    }
    let ghost domain = s.subrange(p + 1, n as int);
    // The witness position is forced: any other candidate would be a second '@'.
    assert(valid_email(s) <==> (p > 0 && domain_ok(domain))) by {
        if valid_email(s) {
            let i = choose|i: int|
                #![trigger s[i]]
                sole_at_sign(s, i) && i > 0 && domain_ok(s.subrange(i + 1, s.len() as int));
            if i != p {
                assert(s[p as int] == '@');
            }
        }
        if p > 0 && domain_ok(domain) {
            assert(s[p as int] == '@');
        }
    }
    if p == 0 || p + 1 == n {
        return false;
    }
    if email.get_char(p + 1) == '.' || email.get_char(n - 1) == '.' {
        return false;
    }
    // Look for a '.' in the domain part.
    let mut dot = false;
    let mut m: usize = p + 1;
    while m < n
        invariant
            n == s.len(),
            s == email@,
            p + 1 <= m <= n,
            dot <==> exists|j: int| #![trigger s[j]] p + 1 <= j < m && s[j] == '.',
        decreases n - m,
    {
        if email.get_char(m) == '.' {
            dot = true;
        }
        m = m + 1;
    }
    assert(domain.contains('.') <==> dot) by {
        if dot {
            let j = choose|j: int| #![trigger s[j]] p + 1 <= j < n && s[j] == '.';
            assert(domain[j - p - 1] == '.');
        }
        if domain.contains('.') {
            let t = choose|t: int| 0 <= t < domain.len() && domain[t] == '.';
            assert(s[t + p + 1] == '.');
        }
    }
    dot
}

/// Every address made of a non-empty local part, one `'@'` and a domain is
/// accepted when neither part holds another `'@'` or a space, and the domain
/// is non-empty, holds a `'.'`, and neither starts nor ends with one. No other
/// character is refused, and the domain may hold any number of dots.
pub proof fn lemma_valid_email_complete(local: Seq<char>, domain: Seq<char>)
    requires
        local.len() > 0,
        domain.len() > 0,
        forall|j: int| 0 <= j < local.len() ==> local[j] != '@' && local[j] != ' ',
        forall|j: int| 0 <= j < domain.len() ==> domain[j] != '@' && domain[j] != ' ',
        exists|j: int| 0 <= j < domain.len() && domain[j] == '.',
        domain[0] != '.',
        domain[domain.len() - 1] != '.',
    ensures
        valid_email(local + seq!['@'] + domain),
{
    let s = local + seq!['@'] + domain;
    let i = local.len() as int;
    assert(s[i] == '@');
    assert forall|j: int| 0 <= j < s.len() && j != i implies s[j] != '@' by {
        if j < i {
            assert(s[j] == local[j]);
        } else {
            assert(s[j] == domain[j - i - 1]);
        }
    }
    let d = s.subrange(i + 1, s.len() as int);
    assert(d =~= domain);
    let t = choose|j: int| 0 <= j < domain.len() && domain[j] == '.';
    assert(d[t] == '.');
    assert(sole_at_sign(s, i) && i > 0 && domain_ok(d));
    assert(!s.contains(' ')) by {
        if s.contains(' ') {
            let j = choose|j: int| 0 <= j < s.len() && s[j] == ' ';
            if j < i {
                assert(s[j] == local[j]);
            } else if j > i {
                assert(s[j] == domain[j - i - 1]);
            }
        }
    }
}

/// Every accepted address has exactly one `'@'`, with a non-empty part before
/// it and, after it, a domain that holds a `'.'` neither first nor last; and
/// it holds no space.
pub proof fn lemma_valid_email_sound(s: Seq<char>)
    requires
        valid_email(s),
    ensures
        exists|i: int|
            #![trigger s[i]]
            0 < i < s.len() - 1 && s[i] == '@' && (forall|j: int|
                0 <= j < s.len() && j != i ==> s[j] != '@') && s[i + 1] != '.' && s[s.len() - 1]
                != '.' && (exists|j: int| i < j < s.len() && s[j] == '.'),
        forall|j: int| 0 <= j < s.len() ==> s[j] != ' ',
{
    let i = choose|i: int|
        #![trigger s[i]]
        sole_at_sign(s, i) && i > 0 && domain_ok(s.subrange(i + 1, s.len() as int));
    let d = s.subrange(i + 1, s.len() as int);
    assert(d[0] == s[i + 1]);
    assert(d[d.len() - 1] == s[s.len() - 1]);
    let t = choose|t: int| 0 <= t < d.len() && d[t] == '.';
    assert(s[i + 1 + t] == '.');
    assert forall|j: int| 0 <= j < s.len() implies s[j] != ' ' by {
        if s[j] == ' ' {
            assert(s.contains(' '));
        }
    }
}

} // verus!
