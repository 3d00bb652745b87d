use vstd::prelude::*;
use vstd::string::StrSliceExecFns;

use crate::error::Error;

verus! {

/// The parsed form of the compact `domain@user:repository` syntax: three
/// validated, non-empty name components.
#[derive(Debug)]
pub struct PathFragment {
    pub domain: String,
    pub user: String,
    pub repository: String,
}

impl PartialEq for PathFragment {
    fn eq(&self, other: &PathFragment) -> (r: bool) {
        self.domain == other.domain && self.user == other.user && self.repository
            == other.repository
    }
}

impl vstd::std_specs::cmp::PartialEqSpecImpl for PathFragment {
    open spec fn obeys_eq_spec() -> bool {
        true
    }

    open spec fn eq_spec(&self, other: &PathFragment) -> bool {
        self.domain@ == other.domain@ && self.user@ == other.user@ && self.repository@
            == other.repository@
    }
}

/// Index of the first occurrence of `c` at or after `i`, if any.
pub open spec fn find_char_from(s: Seq<char>, c: char, i: int) -> Option<int>
    decreases s.len() - i
        when 0 <= i <= s.len()
{
    if i >= s.len() {
        None
    } else if s[i] == c {
        Some(i)
    } else {
        find_char_from(s, c, i + 1)
    }
}

/// The found position is in range, holds `c`, and nothing before it does;
/// absence means `c` does not occur at all.
pub proof fn lemma_find_char_from(s: Seq<char>, c: char, i: int)
    requires
        0 <= i <= s.len(),
    ensures
        match find_char_from(s, c, i) {
            Some(p) => i <= p < s.len() && s[p] == c && (forall|j: int|
                i <= j < p ==> s[j] != c),
            None => forall|j: int| i <= j < s.len() ==> s[j] != c,
        },
    decreases s.len() - i,
{
    if i < s.len() && s[i] != c {
        lemma_find_char_from(s, c, i + 1);
    }
}

/// Position of the first occurrence of `c` in the text.
fn find_char(s: &str, c: char) -> (r: Option<usize>)
    ensures
        match find_char_from(s@, c, 0) {
            Some(p) => r matches Some(u) && u as int == p && p < s@.len(),
            None => r is None,
        },
{
    proof {
        lemma_find_char_from(s@, c, 0);
    }
    let n = s.unicode_len();
    let mut i: usize = 0;
    while i < n
        invariant
            0 <= i <= n,
            n == s@.len(),
            find_char_from(s@, c, 0) == find_char_from(s@, c, i as int),
        decreases n - i,
    {
        if s.get_char(i) == c {
            return Some(i);
        }
        i += 1;
    }
    None
}

/// True when the fragment holds both separators and the first `@` comes
/// strictly before the first `:`.
pub open spec fn separators_well_ordered(s: Seq<char>) -> bool {
    find_char_from(s, '@', 0) matches Some(a) && find_char_from(s, ':', 0) matches Some(b)
        && a < b
}

/// What splitting on the first `@` yields: the domain before it and the rest
/// after it, both required non-empty.
pub open spec fn split_domain_and_rest_spec(s: Seq<char>) -> Option<(Seq<char>, Seq<char>)> {
    match find_char_from(s, '@', 0) {
        None => None,
        Some(a) => if a > 0 && a + 1 < s.len() {
            Some((s.subrange(0, a), s.subrange(a + 1, s.len() as int)))
        } else {
            None
        },
    }
}

/// What splitting on the first `:` yields: the user before it and the
/// repository after it, both required non-empty.
pub open spec fn split_user_and_repository_spec(s: Seq<char>) -> Option<(Seq<char>, Seq<char>)> {
    match find_char_from(s, ':', 0) {
        None => None,
        Some(a) => if a > 0 && a + 1 < s.len() {
            Some((s.subrange(0, a), s.subrange(a + 1, s.len() as int)))
        } else {
            None
        },
    }
}

/// What parsing a fragment yields: the three components, or nothing when the
/// grammar is violated. The separators must both occur, the first `@` strictly
/// before the first `:`, and all three components must be non-empty.
pub open spec fn fragment_parts(s: Seq<char>) -> Option<(Seq<char>, Seq<char>, Seq<char>)> {
    if !separators_well_ordered(s) {
        None
    } else {
        match split_domain_and_rest_spec(s) {
            None => None,
            Some(dr) => match split_user_and_repository_spec(dr.1) {
                None => None,
                Some(ur) => Some((dr.0, ur.0, ur.1)),
            },
        }
    }
}

impl PathFragment {
    /// Parses the compact `domain@user:repository` syntax into its three
    /// components; any violation of the grammar carries back the raw input.
    pub fn parse_fragment(fragment: &str) -> (r: Result<PathFragment, Error>)
        ensures
            match fragment_parts(fragment@) {
                Some(p) => r matches Ok(pf) && pf.domain@ == p.0 && pf.user@ == p.1
                    && pf.repository@ == p.2,
                None => r matches Err(e) && (e matches Error::MalformedFragment(raw) && raw@
                    == fragment@),
            },
    {
        let (domain, user, repository) = match PathFragment::split_fragment_string(fragment) {
            Ok(v) => v,
            Err(e) => {
                return Err(e);
            },
        };
        Ok(PathFragment {
            domain: domain.to_owned(),
            user: user.to_owned(),
            repository: repository.to_owned(),
        })
    }

    /// Splits a fragment into borrowed domain, user and repository components.
    pub fn split_fragment_string(fragment: &str) -> (r: Result<(&str, &str, &str), Error>)
        ensures
            match fragment_parts(fragment@) {
                Some(p) => r matches Ok(t) && t.0@ == p.0 && t.1@ == p.1 && t.2@ == p.2,
                None => r matches Err(e) && (e matches Error::MalformedFragment(raw) && raw@
                    == fragment@),
            },
    {
        if !PathFragment::is_valid_format(fragment) {
            return Err(Error::MalformedFragment(fragment.to_owned()));
        }
        let (domain, rest) = match PathFragment::split_domain_and_rest(fragment) {
            Ok(v) => v,
            Err(e) => {
                return Err(e);
            },
        };
        let (user, repository) = match PathFragment::split_user_and_repository(rest) {
            Ok(v) => v,
            Err(_) => {
                return Err(Error::MalformedFragment(fragment.to_owned()));
            },
        };
        Ok((domain, user, repository))
    }

    /// True when both separators occur and the first `@` comes strictly
    /// before the first `:`.
    pub fn is_valid_format(fragment: &str) -> (r: bool)
        ensures
            r == separators_well_ordered(fragment@),
    {
        let user_separator_pos = match find_char(fragment, '@') {
            Some(v) => v,
            None => {
                return false;
            },
        };
        let repository_separator_pos = match find_char(fragment, ':') {
            Some(v) => v,
            None => {
                return false;
            },
        };
        user_separator_pos < repository_separator_pos
    }

    /// Splits on the first `@` into the domain and the rest; a missing
    /// separator or an empty side carries back the raw input.
    pub fn split_domain_and_rest(fragment: &str) -> (r: Result<(&str, &str), Error>)
        ensures
            match split_domain_and_rest_spec(fragment@) {
                Some(dr) => r matches Ok(p) && p.0@ == dr.0 && p.1@ == dr.1,
                None => r matches Err(e) && (e matches Error::MalformedFragment(raw) && raw@
                    == fragment@),
            },
    {
        let n = fragment.unicode_len();
        let a = match find_char(fragment, '@') {
            Some(v) => v,
            None => {
                return Err(Error::MalformedFragment(fragment.to_owned()));
            },
        };
        if a == 0 || a + 1 == n {
            return Err(Error::MalformedFragment(fragment.to_owned()));
        }
        let domain = fragment.substring_char(0, a);
        let rest = fragment.substring_char(a + 1, n);
        Ok((domain, rest))
    }

    /// Splits on the first `:` into the user and the repository; a missing
    /// separator or an empty side carries back the raw input.
    pub fn split_user_and_repository(fragment: &str) -> (r: Result<(&str, &str), Error>)
        ensures
            match split_user_and_repository_spec(fragment@) {
                Some(ur) => r matches Ok(p) && p.0@ == ur.0 && p.1@ == ur.1,
                None => r matches Err(e) && (e matches Error::MalformedFragment(raw) && raw@
                    == fragment@),
            },
    {
        let n = fragment.unicode_len();
        let a = match find_char(fragment, ':') {
            Some(v) => v,
            None => {
                return Err(Error::MalformedFragment(fragment.to_owned()));
            },
        };
        if a == 0 || a + 1 == n {
            return Err(Error::MalformedFragment(fragment.to_owned()));
        }
        let user = fragment.substring_char(0, a);
        let repository = fragment.substring_char(a + 1, n);
        Ok((user, repository))
    }
}

} // verus!
