use vstd::prelude::*;
use vstd::string::*;
use crate::error::AppError;

verus! {

/// Representation of possible authentication methods for the GitHub API.
#[derive(Debug, PartialEq)]
pub enum AuthMethod {
    /// Basic access authentication
    BasicAuth { username: String, token: String },
}

/// `s` holds no `:`.
pub open spec fn colon_free(s: Seq<char>) -> bool {
    forall|i: int| 0 <= i < s.len() ==> s[i] != ':'
}

/// `raw` is `username:token` with both parts non-empty and free of `:`, and the
/// separator stands at `p`.
pub open spec fn basic_split_at(raw: Seq<char>, p: int) -> bool {
    &&& 0 < p < raw.len() - 1
    &&& raw[p] == ':'
    &&& colon_free(raw.take(p))
    &&& colon_free(raw.skip(p + 1))
}

/// `raw` holds exactly one `:`, with something on either side of it.
pub open spec fn is_basic_credential(raw: Seq<char>) -> bool {
    exists|p: int| basic_split_at(raw, p)
}

impl AuthMethod {
    /// Reads credentials written `username:token`.
    pub fn parse(raw: &str) -> (r: Result<AuthMethod, AppError>)
        ensures
            r is Ok <==> is_basic_credential(raw@),
            r matches Ok(AuthMethod::BasicAuth { username, token }) ==> {
                &&& basic_split_at(raw@, username@.len() as int)
                &&& raw@ == username@ + seq![':'] + token@
            },
            r is Err ==> r == Err::<AuthMethod, AppError>(AppError::UnsupportedAuth),
    {
        let len = raw.unicode_len();
        let mut colons: usize = 0;
        let mut first: usize = 0;
        let mut second: usize = 0;
        let mut i: usize = 0;
        while i < len
            invariant
                len == raw@.len(),
                i <= len,
                colons <= i,
                colons == 0 ==> colon_free(raw@.take(i as int)),
                colons >= 1 ==> first < i && raw@[first as int] == ':' && colon_free(
                    raw@.take(first as int),
                ),
                colons == 1 ==> colon_free(raw@.subrange(first + 1, i as int)),
                colons >= 2 ==> first < second < i && raw@[second as int] == ':',
            decreases len - i,
        {
            if raw.get_char(i) == ':' {
                if colons == 0 {
                    first = i;
                    proof {
                        assert(raw@.take(first as int) =~= raw@.take(i as int));
                    }
                }
                if colons == 1 {
                    second = i;
                }
                colons = colons + 1;
            }
            proof {
                assert(raw@.take(i + 1) =~= raw@.take(i as int).push(raw@[i as int]));
                if colons == 1 && first < i {
                    assert(raw@.subrange(first + 1, i + 1) =~= raw@.subrange(first + 1, i as int).push(
                        raw@[i as int],
                    ));
                }
                if colons == 1 && first == i {
                    assert(raw@.subrange(first + 1, i + 1) =~= Seq::<char>::empty());
                }
            }
            i = i + 1;
        }
        if colons == 1 && first > 0 && first + 1 < len {
            let username = String::from_str(raw.substring_char(0, first));
            let token = String::from_str(raw.substring_char(first + 1, len));
            proof {
                assert(raw@.skip(first + 1) =~= raw@.subrange(first + 1, len as int));
                assert(basic_split_at(raw@, first as int));
                assert(raw@ =~= username@ + seq![':'] + token@);
            }
            Ok(AuthMethod::BasicAuth { username, token })
        } else {
            proof {
                if is_basic_credential(raw@) {
                    let p = choose|p: int| basic_split_at(raw@, p);
                    if colons == 0 {
                        assert(raw@.take(len as int)[p] == ':');
                    } else {
                        if first < p {
                            assert(raw@.take(p)[first as int] == ':');
                        } else if p < first {
                            assert(raw@.take(first as int)[p] == ':');
                        }
                        assert(p == first);
                        if colons >= 2 {
                            assert(raw@.skip(p + 1)[second - p - 1] == ':');
                        }
                    }
                }
            }
            Err(AppError::UnsupportedAuth)
        }
    }
}

} // verus!
