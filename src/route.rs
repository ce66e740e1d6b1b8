use vstd::prelude::*;
use vstd::string::StringSliceAdditionalSpecFns;

verus! {

/// The request methods that the service tells apart.
#[derive(PartialEq, Eq, Structural, Clone, Copy, Debug)]
pub enum Method {
    Get,
    Post,
    Put,
    Delete,
    Other,
}

/// What a request asks the service to do, from its method and path.
#[derive(PartialEq, Eq, Structural, Clone, Copy, Debug)]
pub enum Endpoint {
    /// `GET /todos`
    ListTodos,
    /// `POST /todos`
    CreateTodo,
    /// `PUT /todos/{id}`
    UpdateTodo(u64),
    /// `DELETE /todos/{id}`
    DeleteTodo(u64),
    /// `GET /posts`
    ListPosts,
    /// A known path under a method that it does not take.
    WrongMethod,
    /// No such path.
    NoRoute,
}

/// The resource that a path names.
pub enum Resource {
    Todos,
    TodoId(u64),
    Posts,
    Unknown,
}

/// The bytes of `/todos`.
pub open spec fn todos_path() -> Seq<u8> {
    seq![47u8, 116u8, 111u8, 100u8, 111u8, 115u8]
}

/// The bytes of `/posts`.
pub open spec fn posts_path() -> Seq<u8> {
    seq![47u8, 112u8, 111u8, 115u8, 116u8, 115u8]
}

pub open spec fn is_digit(b: u8) -> bool {
    48 <= b <= 57
}

/// Every byte of `s` is an ASCII decimal digit.
pub open spec fn all_digits(s: Seq<u8>) -> bool {
    forall|i: int| 0 <= i < s.len() ==> is_digit(#[trigger] s[i])
}

/// The number that the decimal digits `s` write.
pub open spec fn decimal_value(s: Seq<u8>) -> nat
    decreases s.len(),
{
    if s.len() == 0 {
        0
    } else {
        decimal_value(s.drop_last()) * 10 + (s.last() - 48) as nat
    }
}

/// The digits of an id: `s` without a leading `+`, if it has one.
pub open spec fn id_digits(s: Seq<u8>) -> Seq<u8> {
    if s.len() > 0 && s[0] == 43u8 {
        s.drop_first()
    } else {
        s
    }
}

/// The id that a path segment writes: an optional `+`, then one or more
/// decimal digits whose value fits in a `u64`.
pub open spec fn spec_parse_id(s: Seq<u8>) -> Option<u64> {
    let d = id_digits(s);
    if d.len() > 0 && all_digits(d) && decimal_value(d) <= u64::MAX {
        Some(decimal_value(d) as u64)
    } else {
        None
    }
}

/// The resource that the path `p` names.
pub open spec fn spec_resource(p: Seq<u8>) -> Resource {
    if p == todos_path() {
        Resource::Todos
    } else if p == posts_path() {
        Resource::Posts
    } else if p.len() > 7 && p.subrange(0, 6) == todos_path() && p[6] == 47u8 {
        match spec_parse_id(p.subrange(7, p.len() as int)) {
            Some(id) => Resource::TodoId(id),
            None => Resource::Unknown,
        }
    } else {
        Resource::Unknown
    }
}

/// The endpoint of a request with method `m` on the path `p`.
pub open spec fn spec_route(m: Method, p: Seq<u8>) -> Endpoint {
    match spec_resource(p) {
        Resource::Todos => match m {
            Method::Get => Endpoint::ListTodos,
            Method::Post => Endpoint::CreateTodo,
            _ => Endpoint::WrongMethod,
        },
        Resource::TodoId(id) => match m {
            Method::Put => Endpoint::UpdateTodo(id),
            Method::Delete => Endpoint::DeleteTodo(id),
            _ => Endpoint::WrongMethod,
        },
        Resource::Posts => match m {
            Method::Get => Endpoint::ListPosts,
            _ => Endpoint::WrongMethod,
        },
        Resource::Unknown => Endpoint::NoRoute,
    }
}

/// A longer run of digits writes at least as large a number as its prefix.
proof fn lemma_decimal_prefix(s: Seq<u8>, i: int)
    requires
        0 <= i <= s.len(),
        all_digits(s),
    ensures
        decimal_value(s.subrange(0, i)) <= decimal_value(s),
    decreases s.len() - i,
{
    if i < s.len() {
        lemma_decimal_prefix(s, i + 1);
        let a = s.subrange(0, i + 1);
        assert(a.drop_last() =~= s.subrange(0, i));
        assert(is_digit(s[i]));
    } else {
        assert(s.subrange(0, i) =~= s);
    }
}

/// Parses the bytes of `b` from `start` on as an id.
pub fn parse_id(b: &[u8], start: usize) -> (r: Option<u64>)
    requires
        start <= b@.len(),
    ensures
        r == spec_parse_id(b@.subrange(start as int, b@.len() as int)),
{
    let ghost s = b@.subrange(start as int, b@.len() as int);
    let mut i: usize = start;
    if i < b.len() && b[i] == 43u8 {
        i = i + 1;
    }
    let ghost d = b@.subrange(i as int, b@.len() as int);
    assert(d =~= id_digits(s));
    if i == b.len() {
        return None;
    }
    let first: usize = i;
    let mut v: u64 = 0;
    while i < b.len()
        invariant
            first <= i <= b@.len(),
            first < b@.len(),
            s == b@.subrange(start as int, b@.len() as int),
            d == id_digits(s),
            d == b@.subrange(first as int, b@.len() as int),
            all_digits(b@.subrange(first as int, i as int)),
            v == decimal_value(b@.subrange(first as int, i as int)),
        decreases b@.len() - i,
    {
        let c = b[i];
        let ghost pre = b@.subrange(first as int, i as int);
        let ghost next = b@.subrange(first as int, i + 1);
        assert(next.drop_last() =~= pre);
        if c < 48u8 || c > 57u8 {
            assert(!all_digits(d)) by {
                assert(d[i - first] == c);
            }
            return None;
        }
        let digit: u64 = (c - 48u8) as u64;
        if v > (u64::MAX - digit) / 10 {
            proof {
                assert(v * 10 + digit > u64::MAX) by (nonlinear_arith)
                    requires
                        v > (u64::MAX - digit) / 10,
                        digit <= 9,
                ;
                assert(decimal_value(next) == v * 10 + digit);
                assert(all_digits(next));
                if all_digits(d) {
                    assert(next =~= d.subrange(0, i + 1 - first));
                    lemma_decimal_prefix(d, i + 1 - first);
                }
            }
            return None;
        }
        v = v * 10 + digit;
        i = i + 1;
    }
    assert(b@.subrange(first as int, i as int) =~= d);
    Some(v)
}

/// Tells which resource the path `path` names.
pub fn resource(path: &str) -> (r: Resource)
    ensures
        r == spec_resource(path.spec_bytes()),
{
    let b = path.as_bytes();
    let n = b.len();
    if n == 6 && b[0] == 47u8 && b[1] == 116u8 && b[2] == 111u8 && b[3] == 100u8 && b[4] == 111u8
        && b[5] == 115u8 {
        assert(b@ =~= todos_path());
        return Resource::Todos;
    }
    if n == 6 && b[0] == 47u8 && b[1] == 112u8 && b[2] == 111u8 && b[3] == 115u8 && b[4] == 116u8
        && b[5] == 115u8 {
        assert(b@ =~= posts_path());
        assert(b@ != todos_path()) by {
            assert(b@[1] != todos_path()[1]);
        }
        return Resource::Posts;
    }
    if n > 7 && b[0] == 47u8 && b[1] == 116u8 && b[2] == 111u8 && b[3] == 100u8 && b[4] == 111u8
        && b[5] == 115u8 && b[6] == 47u8 {
        assert(b@.subrange(0, 6) =~= todos_path());
        assert(b@ != todos_path() && b@ != posts_path());
        match parse_id(b, 7) {
            Some(id) => {
                return Resource::TodoId(id);
            },
            None => {
                return Resource::Unknown;
            },
        }
    }
    proof {
        if b@ == todos_path() {
            assert(b@[1] == 116u8 && b@[5] == 115u8);
        }
        if b@ == posts_path() {
            assert(b@[1] == 112u8 && b@[5] == 115u8);
        }
        if b@.len() > 7 && b@.subrange(0, 6) == todos_path() {
            assert(b@[0] == b@.subrange(0, 6)[0]);
            assert(b@[1] == b@.subrange(0, 6)[1]);
            assert(b@[2] == b@.subrange(0, 6)[2]);
            assert(b@[3] == b@.subrange(0, 6)[3]);
            assert(b@[4] == b@.subrange(0, 6)[4]);
            assert(b@[5] == b@.subrange(0, 6)[5]);
        }
    }
    Resource::Unknown
}

/// Maps a request's method and path to the endpoint that serves it.
pub fn route(method: Method, path: &str) -> (r: Endpoint)
    ensures
        r == spec_route(method, path.spec_bytes()),
{
    match resource(path) {
        Resource::Todos => match method {
            Method::Get => Endpoint::ListTodos,
            Method::Post => Endpoint::CreateTodo,
            _ => Endpoint::WrongMethod,
        },
        Resource::TodoId(id) => match method {
            Method::Put => Endpoint::UpdateTodo(id),
            Method::Delete => Endpoint::DeleteTodo(id),
            _ => Endpoint::WrongMethod,
        },
        Resource::Posts => match method {
            Method::Get => Endpoint::ListPosts,
            _ => Endpoint::WrongMethod,
        },
        Resource::Unknown => Endpoint::NoRoute,
    }
}

} // verus!
