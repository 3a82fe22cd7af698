//! CGI environment construction: the ordered variable list handed to the
//! child process.
//!
//! The environment is the inherited baseline overlaid with the per-request
//! variables `REQUEST_METHOD`, `QUERY_STRING`, `CONTENT_LENGTH` and
//! `CONTENT_TYPE`. The list is ordered and a later entry wins over an
//! earlier one of the same name, so appending the per-request entries makes
//! them override any inherited ones. A missing optional source (no query
//! component, no content header, a non-POST method) omits its variable
//! rather than setting it empty; the content variables are copied verbatim
//! from the request headers, and only for POST.

use vstd::prelude::*;
use crate::util::str_eq;

verus! {

/// One environment variable for the child process.
#[derive(Clone, Debug, PartialEq, Eq)]
pub struct EnvVar {
    pub name: String,
    pub value: String,
}

impl View for EnvVar {
    type V = (Seq<char>, Seq<char>);

    open spec fn view(&self) -> (Seq<char>, Seq<char>) {
        (self.name@, self.value@)
    }
}

/// The mathematical content of an environment: the ordered sequence of
/// name/value pairs.
pub open spec fn env_model(vs: Seq<EnvVar>) -> Seq<(Seq<char>, Seq<char>)> {
    vs.map_values(|e: EnvVar| e@)
}

/// The effective value of `key` in an ordered environment: the value of
/// the last entry bearing that name, since a later entry wins.
pub open spec fn env_value(env: Seq<(Seq<char>, Seq<char>)>, key: Seq<char>) -> Option<Seq<char>>
    decreases env.len(),
{
    if env.len() == 0 {
        None::<Seq<char>>
    } else if env.last().0 == key {
        Some(env.last().1)
    } else {
        env_value(env.drop_last(), key)
    }
}

/// The environment handed to the child for one request: the inherited
/// baseline, then `REQUEST_METHOD`, then `QUERY_STRING` when the request
/// URI carries a query component, then — for POST only — `CONTENT_LENGTH`
/// and `CONTENT_TYPE` when the request carries those headers, each copied
/// verbatim.
pub open spec fn request_env(
    base: Seq<(Seq<char>, Seq<char>)>,
    method: Seq<char>,
    query: Option<Seq<char>>,
    content_length: Option<Seq<char>>,
    content_type: Option<Seq<char>>,
) -> Seq<(Seq<char>, Seq<char>)> {
    let with_method = base.push(("REQUEST_METHOD"@, method));
    let with_query = match query {
        Some(q) => with_method.push(("QUERY_STRING"@, q)),
        None => with_method,
    };
    let with_length = if method == "POST"@ {
        match content_length {
            Some(v) => with_query.push(("CONTENT_LENGTH"@, v)),
            None => with_query,
        }
    } else {
        with_query
    };
    if method == "POST"@ {
        match content_type {
            Some(v) => with_length.push(("CONTENT_TYPE"@, v)),
            None => with_length,
        }
    } else {
        with_length
    }
}

/// Builds the child's environment for one request, exactly as
/// [`request_env`] states it.
pub fn build_cgi_env(
    base: Vec<EnvVar>,
    method: &str,
    query: Option<&str>,
    content_length: Option<&str>,
    content_type: Option<&str>,
) -> (r: Vec<EnvVar>)
    ensures
        env_model(r@) == request_env(
            env_model(base@),
            method@,
            (match query {
                Some(q) => Some(q@),
                None => None::<Seq<char>>,
            }),
            (match content_length {
                Some(v) => Some(v@),
                None => None::<Seq<char>>,
            }),
            (match content_type {
                Some(v) => Some(v@),
                None => None::<Seq<char>>,
            }),
        ),
{
    let ghost base_m = env_model(base@);
    let mut env = base;
    let ghost m0 = env@;
    env.push(EnvVar { name: "REQUEST_METHOD".to_owned(), value: method.to_owned() });
    proof {
        assert(env_model(env@) =~= env_model(m0).push(("REQUEST_METHOD"@, method@)));
    }
    if let Some(q) = query {
        let ghost m1 = env@;
        env.push(EnvVar { name: "QUERY_STRING".to_owned(), value: q.to_owned() });
        proof {
            assert(env_model(env@) =~= env_model(m1).push(("QUERY_STRING"@, q@)));
        }
    }
    let is_post = str_eq(method, "POST");
    if is_post {
        if let Some(v) = content_length {
            let ghost m2 = env@;
            env.push(EnvVar { name: "CONTENT_LENGTH".to_owned(), value: v.to_owned() });
            proof {
                assert(env_model(env@) =~= env_model(m2).push(("CONTENT_LENGTH"@, v@)));
            }
        }
        if let Some(v) = content_type {
            let ghost m3 = env@;
            env.push(EnvVar { name: "CONTENT_TYPE".to_owned(), value: v.to_owned() });
            proof {
                assert(env_model(env@) =~= env_model(m3).push(("CONTENT_TYPE"@, v@)));
            }
        }
    }
    env
}

/// Appending an entry of a different name leaves a key's effective value
/// unchanged.
proof fn lemma_env_value_push_other(
    env: Seq<(Seq<char>, Seq<char>)>,
    key: Seq<char>,
    p: (Seq<char>, Seq<char>),
)
    requires
        p.0 != key,
    ensures
        env_value(env.push(p), key) == env_value(env, key),
{
    assert(env.push(p).drop_last() =~= env);
}

/// Appending an entry makes it the key's effective value: the overlay is
/// last-write-wins.
proof fn lemma_env_value_push_same(env: Seq<(Seq<char>, Seq<char>)>, p: (Seq<char>, Seq<char>))
    ensures
        env_value(env.push(p), p.0) == Some(p.1),
{
}

/// The four per-request variable names are pairwise distinct.
proof fn lemma_names_distinct()
    ensures
        "REQUEST_METHOD"@ != "QUERY_STRING"@,
        "REQUEST_METHOD"@ != "CONTENT_LENGTH"@,
        "REQUEST_METHOD"@ != "CONTENT_TYPE"@,
        "QUERY_STRING"@ != "CONTENT_LENGTH"@,
        "QUERY_STRING"@ != "CONTENT_TYPE"@,
        "CONTENT_LENGTH"@ != "CONTENT_TYPE"@,
{
    reveal_strlit("REQUEST_METHOD");
    reveal_strlit("QUERY_STRING");
    reveal_strlit("CONTENT_LENGTH");
    reveal_strlit("CONTENT_TYPE");
    assert("REQUEST_METHOD"@[0] != "CONTENT_LENGTH"@[0]);
    assert("REQUEST_METHOD"@[0] != "CONTENT_TYPE"@[0]);
    assert("QUERY_STRING"@[0] != "CONTENT_LENGTH"@[0]);
    assert("QUERY_STRING"@[0] != "CONTENT_TYPE"@[0]);
    assert("REQUEST_METHOD"@.len() != "QUERY_STRING"@.len());
    assert("CONTENT_LENGTH"@.len() != "CONTENT_TYPE"@.len());
}

/// The request method always reaches the child: `REQUEST_METHOD` is set
/// to the request's method, whatever the inherited baseline held under
/// that name — the per-request overlay wins.
pub proof fn lemma_request_method_wins(
    base: Seq<(Seq<char>, Seq<char>)>,
    method: Seq<char>,
    query: Option<Seq<char>>,
    content_length: Option<Seq<char>>,
    content_type: Option<Seq<char>>,
)
    ensures
        env_value(
            request_env(base, method, query, content_length, content_type),
            "REQUEST_METHOD"@,
        ) == Some(method),
{
    lemma_names_distinct();
    let with_method = base.push(("REQUEST_METHOD"@, method));
    lemma_env_value_push_same(base, ("REQUEST_METHOD"@, method));
    let with_query = match query {
        Some(q) => with_method.push(("QUERY_STRING"@, q)),
        None => with_method,
    };
    if query is Some {
        lemma_env_value_push_other(
            with_method,
            "REQUEST_METHOD"@,
            ("QUERY_STRING"@, query->Some_0),
        );
    }
    let with_length = if method == "POST"@ {
        match content_length {
            Some(v) => with_query.push(("CONTENT_LENGTH"@, v)),
            None => with_query,
        }
    } else {
        with_query
    };
    if method == "POST"@ && content_length is Some {
        lemma_env_value_push_other(
            with_query,
            "REQUEST_METHOD"@,
            ("CONTENT_LENGTH"@, content_length->Some_0),
        );
    }
    if method == "POST"@ && content_type is Some {
        lemma_env_value_push_other(
            with_length,
            "REQUEST_METHOD"@,
            ("CONTENT_TYPE"@, content_type->Some_0),
        );
    }
}

/// A POST request's content headers reach the child verbatim:
/// `CONTENT_LENGTH` and `CONTENT_TYPE` hold exactly the request's header
/// values, whatever the inherited baseline held under those names.
pub proof fn lemma_post_content_vars(
    base: Seq<(Seq<char>, Seq<char>)>,
    query: Option<Seq<char>>,
    length_value: Seq<char>,
    type_value: Seq<char>,
)
    ensures
        env_value(
            request_env(base, "POST"@, query, Some(length_value), Some(type_value)),
            "CONTENT_LENGTH"@,
        ) == Some(length_value),
        env_value(
            request_env(base, "POST"@, query, Some(length_value), Some(type_value)),
            "CONTENT_TYPE"@,
        ) == Some(type_value),
{
    lemma_names_distinct();
    let with_method = base.push(("REQUEST_METHOD"@, "POST"@));
    let with_query = match query {
        Some(q) => with_method.push(("QUERY_STRING"@, q)),
        None => with_method,
    };
    let with_length = with_query.push(("CONTENT_LENGTH"@, length_value));
    lemma_env_value_push_same(with_query, ("CONTENT_LENGTH"@, length_value));
    lemma_env_value_push_other(
        with_length,
        "CONTENT_LENGTH"@,
        ("CONTENT_TYPE"@, type_value),
    );
    lemma_env_value_push_same(with_length, ("CONTENT_TYPE"@, type_value));
}

/// A non-POST request attaches no content variables: `CONTENT_LENGTH` and
/// `CONTENT_TYPE` keep whatever effective value the inherited baseline
/// gave them, whatever headers the request carried.
pub proof fn lemma_no_content_vars_without_post(
    base: Seq<(Seq<char>, Seq<char>)>,
    method: Seq<char>,
    query: Option<Seq<char>>,
    content_length: Option<Seq<char>>,
    content_type: Option<Seq<char>>,
)
    requires
        method != "POST"@,
    ensures
        env_value(
            request_env(base, method, query, content_length, content_type),
            "CONTENT_LENGTH"@,
        ) == env_value(base, "CONTENT_LENGTH"@),
        env_value(
            request_env(base, method, query, content_length, content_type),
            "CONTENT_TYPE"@,
        ) == env_value(base, "CONTENT_TYPE"@),
{
    lemma_names_distinct();
    let with_method = base.push(("REQUEST_METHOD"@, method));
    lemma_env_value_push_other(base, "CONTENT_LENGTH"@, ("REQUEST_METHOD"@, method));
    lemma_env_value_push_other(base, "CONTENT_TYPE"@, ("REQUEST_METHOD"@, method));
    if query is Some {
        lemma_env_value_push_other(
            with_method,
            "CONTENT_LENGTH"@,
            ("QUERY_STRING"@, query->Some_0),
        );
        lemma_env_value_push_other(
            with_method,
            "CONTENT_TYPE"@,
            ("QUERY_STRING"@, query->Some_0),
        );
    }
}

} // verus!
