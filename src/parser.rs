use vstd::prelude::*;

use crate::text::{has_prefix, is_prefix};

verus! {

/// Why a path could not be resolved.
#[derive(Debug, Clone, Copy, PartialEq, Eq, Structural)]
pub enum PathError {
    /// The path, once expanded, names nothing on the file system.
    NotFound,
    /// The path needs the home directory, and none is known.
    HomeUnresolvable,
}

/// The home directory as a sequence of characters, when one is known.
pub open spec fn home_view(home: Option<&str>) -> Option<Seq<char>> {
    match home {
        Some(h) => Some(h@),
        None => None,
    }
}

/// A path that starts at the root of the file system.
pub open spec fn is_absolute(p: Seq<char>) -> bool {
    p.len() > 0 && p[0] == '/'
}

/// `path` with a leading `~` replaced by the home directory.
pub open spec fn expand_spec(path: Seq<char>, home: Option<Seq<char>>) -> Result<
    Seq<char>,
    PathError,
> {
    if path.len() > 0 && path[0] == '~' {
        match home {
            Some(h) => Ok(h + path.skip(1)),
            None => Err(PathError::HomeUnresolvable),
        }
    } else {
        Ok(path)
    }
}

/// Whether `p` is the home directory `home` or lies below it.
pub open spec fn under_home(p: Seq<char>, home: Seq<char>) -> bool {
    p == home || (is_prefix(home + seq!['/'], p))
}

/// `p` with the home directory at its start written as `~`.
pub open spec fn condense_spec(p: Seq<char>, home: Seq<char>) -> Seq<char> {
    if under_home(p, home) {
        seq!['~'] + p.skip(home.len() as int)
    } else {
        p
    }
}

/// Relies on `std::path::Path::canonicalize`: on success the result is the
/// absolute form of the path, which on this platform starts at the root `/`.
/// Which path comes back, if any, depends on the file system.
#[verifier::external_body]
fn canonicalize(path: &str) -> (r: Option<String>)
    ensures
        r matches Some(c) ==> is_absolute(c@),
{
    match std::path::Path::new(path).canonicalize() {
        Ok(p) => p.into_os_string().into_string().ok(),
        Err(_) => None,
    }
}

/// Relies on `std::path::Path::exists`: whether something is at the path,
/// as the file system says at the time of the call.
#[verifier::external_body]
pub(crate) fn path_exists(path: &str) -> (r: bool) {
    std::path::Path::new(path).exists()
}

/// Replaces a `~` at the start of `path` with the home directory.
pub fn expand_path(path: &str, home: Option<&str>) -> (r: Result<String, PathError>)
    ensures
        match r {
            Ok(s) => expand_spec(path@, home_view(home)) == Ok::<Seq<char>, PathError>(s@),
            Err(e) => expand_spec(path@, home_view(home)) == Err::<Seq<char>, PathError>(e),
        },
{
    let n = path.unicode_len();
    if n > 0 && path.get_char(0) == '~' {
        match home {
            Some(h) => {
                let mut r = String::from_str(h);
                r.append(path.substring_char(1, n));
                assert(path@.skip(1) == path@.subrange(1, n as int));
                Ok(r)
            },
            None => Err(PathError::HomeUnresolvable),
        }
    } else {
        Ok(String::from_str(path))
    }
}

/// Writes the home directory at the start of an absolute path as `~`;
/// any other path comes back as it is.
pub fn condense_canonical(canon: &str, home: &str) -> (r: String)
    ensures
        r@ == condense_spec(canon@, home@),
{
    let n = canon.unicode_len();
    let h = home.unicode_len();
    let ghost hs = home@ + seq!['/'];
    let under = if h == n {
        crate::text::str_eq(canon, home)
    } else if h < n && canon.get_char(h) == '/' {
        let below = has_prefix(canon, home);
        proof {
            if below {
                assert(canon@.subrange(0, h + 1 as int) =~= hs);
            }
            if is_prefix(hs, canon@) {
                assert(canon@.subrange(0, h as int) =~= canon@.subrange(0, h + 1 as int).subrange(
                    0,
                    h as int,
                ));
                assert(hs.subrange(0, h as int) =~= home@);
            }
        }
        below
    } else {
        proof {
            if is_prefix(hs, canon@) {
                assert(canon@.subrange(0, h + 1 as int)[h as int] == canon@[h as int]);
                assert(hs[h as int] == '/');
            }
        }
        false
    };
    assert(under == under_home(canon@, home@));
    if under {
        let mut r = String::from_str("~");
        proof {
            reveal_strlit("~");
        }
        assert("~"@ =~= seq!['~']);
        r.append(canon.substring_char(h, n));
        assert(canon@.skip(h as int) =~= canon@.subrange(h as int, n as int));
        r
    } else {
        String::from_str(canon)
    }
}

/// Checks whether the path, after expansion of `~`, names something on the
/// file system.
pub fn verify_path(path: &str, home: Option<&str>) -> (r: bool)
    ensures
        expand_spec(path@, home_view(home)) is Err ==> !r,
{
    match expand_path(path, home) {
        Ok(full) => path_exists(full.as_str()),
        Err(_) => false,
    }
}

/// Expands `~` and resolves the path to its canonical absolute form:
/// `.`, `..` and symbolic links resolved. Fails when the home directory is
/// needed and unknown, or when the path names nothing.
pub fn norm_abs_path(path: &str, home: Option<&str>) -> (r: Result<String, PathError>)
    ensures
        expand_spec(path@, home_view(home)) is Err ==> r == Err::<String, PathError>(
            PathError::HomeUnresolvable,
        ),
        expand_spec(path@, home_view(home)) is Ok ==> (r matches Ok(c) && is_absolute(c@)) || r
            == Err::<String, PathError>(PathError::NotFound),
{
    let full = expand_path(path, home)?;
    match canonicalize(full.as_str()) {
        Some(c) => Ok(c),
        None => Err(PathError::NotFound),
    }
}

/// Resolves the path as `norm_abs_path` does, then writes the home directory
/// at its start as `~`. Used to show a path to the user.
pub fn condense_path(path: &str, home: Option<&str>) -> (r: Result<String, PathError>)
    ensures
        home is None ==> r == Err::<String, PathError>(PathError::HomeUnresolvable),
        home matches Some(h) ==> match r {
            Ok(s) => exists|c: Seq<char>| is_absolute(c) && s@ == #[trigger] condense_spec(c, h@),
            Err(e) => e == PathError::NotFound,
        },
{
    match home {
        None => Err(PathError::HomeUnresolvable),
        Some(h) => {
            let c = norm_abs_path(path, home)?;
            let r = condense_canonical(c.as_str(), h);
            assert(is_absolute(c@) && r@ == condense_spec(c@, h@));
            Ok(r)
        },
    }
}

/// Writing the home directory of an absolute path as `~` loses nothing:
/// expanding the condensed form gives back the same path, so resolving it
/// again reaches the same place on the file system.
pub proof fn lemma_condense_round_trip(canon: Seq<char>, home: Seq<char>)
    requires
        is_absolute(canon),
    ensures
        expand_spec(condense_spec(canon, home), Some(home)) == Ok::<Seq<char>, PathError>(canon),
{
    let c = condense_spec(canon, home);
    if under_home(canon, home) {
        let rest = canon.skip(home.len() as int);
        assert(c.skip(1) == rest);
        if canon != home {
            assert(canon.subrange(0, home.len() as int) =~= canon.subrange(
                0,
                home.len() + 1 as int,
            ).subrange(0, home.len() as int));
            assert((home + seq!['/']).subrange(0, home.len() as int) =~= home);
            assert(canon.subrange(0, home.len() as int) == home);
        }
        assert(home + rest =~= canon);
    }
}

} // verus!
