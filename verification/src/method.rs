//! HTTP method tokens, sets of them, and the text of an `Allow` header.

use vstd::prelude::*;
use vstd::string::StringExecFns;

verus! {

/// How many standard methods there are.
pub const METHOD_COUNT: usize = 9;

/// A standard HTTP request method.
///
/// The variants are declared in the order in which the router walks them.
#[derive(Clone, Copy, Debug, PartialEq, Eq, Structural, Hash)]
pub enum Method {
    Get,
    Post,
    Put,
    Delete,
    Head,
    Patch,
    Trace,
    Connect,
    Options,
}

impl Method {
    /// Position of the method in declaration order.
    pub open spec fn ordinal(self) -> int {
        match self {
            Method::Get => 0,
            Method::Post => 1,
            Method::Put => 2,
            Method::Delete => 3,
            Method::Head => 4,
            Method::Patch => 5,
            Method::Trace => 6,
            Method::Connect => 7,
            Method::Options => 8,
        }
    }

    /// The method at position `i`; `Options` for every position past the end.
    pub open spec fn at(i: int) -> Method {
        if i == 0 {
            Method::Get
        } else if i == 1 {
            Method::Post
        } else if i == 2 {
            Method::Put
        } else if i == 3 {
            Method::Delete
        } else if i == 4 {
            Method::Head
        } else if i == 5 {
            Method::Patch
        } else if i == 6 {
            Method::Trace
        } else if i == 7 {
            Method::Connect
        } else {
            Method::Options
        }
    }

    /// Every method once, in declaration order.
    pub open spec fn all() -> Seq<Method> {
        Seq::new(METHOD_COUNT as nat, |i: int| Method::at(i))
    }

    /// The method's token as it stands on a request line.
    pub open spec fn name(self) -> Seq<char> {
        match self {
            Method::Get => "GET"@,
            Method::Post => "POST"@,
            Method::Put => "PUT"@,
            Method::Delete => "DELETE"@,
            Method::Head => "HEAD"@,
            Method::Patch => "PATCH"@,
            Method::Trace => "TRACE"@,
            Method::Connect => "CONNECT"@,
            Method::Options => "OPTIONS"@,
        }
    }

    /// Position of the method in declaration order.
    pub fn index(self) -> (i: usize)
        ensures
            i == self.ordinal(),
            i < METHOD_COUNT,
            Method::at(i as int) == self,
    {
        match self {
            Method::Get => 0,
            Method::Post => 1,
            Method::Put => 2,
            Method::Delete => 3,
            Method::Head => 4,
            Method::Patch => 5,
            Method::Trace => 6,
            Method::Connect => 7,
            Method::Options => 8,
        }
    }

    /// The method at position `i`.
    pub fn from_index(i: usize) -> (method: Method)
        requires
            i < METHOD_COUNT,
        ensures
            method == Method::at(i as int),
            method.ordinal() == i,
    {
        if i == 0 {
            Method::Get
        } else if i == 1 {
            Method::Post
        } else if i == 2 {
            Method::Put
        } else if i == 3 {
            Method::Delete
        } else if i == 4 {
            Method::Head
        } else if i == 5 {
            Method::Patch
        } else if i == 6 {
            Method::Trace
        } else if i == 7 {
            Method::Connect
        } else {
            Method::Options
        }
    }

    /// The method's token as an owned string.
    pub fn to_name(self) -> (token: String)
        ensures
            token@ == self.name(),
    {
        standard_token(self)
    }
}

/// Trusted: `http::Method::as_str` on the `http` constant that `method` stands for.
///
/// For each of the nine standard methods `as_str` returns the upper-case token
/// (`"GET"` for `http::Method::GET`, and so on); the contract says exactly that.
#[verifier::external_body]
fn standard_token(method: Method) -> (token: String)
    ensures
        token@ == method.name(),
{
    let outside = match method {
        Method::Get => http::Method::GET,
        Method::Post => http::Method::POST,
        Method::Put => http::Method::PUT,
        Method::Delete => http::Method::DELETE,
        Method::Head => http::Method::HEAD,
        Method::Patch => http::Method::PATCH,
        Method::Trace => http::Method::TRACE,
        Method::Connect => http::Method::CONNECT,
        Method::Options => http::Method::OPTIONS,
    };
    outside.as_str().to_string()
}

/// A set of standard methods.
pub struct MethodSet {
    flags: [bool; 9],
}

impl View for MethodSet {
    type V = Set<Method>;

    closed spec fn view(&self) -> Set<Method> {
        Set::new(|m: Method| self.flags@[m.ordinal()])
    }
}

impl MethodSet {
    /// The empty set.
    pub fn new() -> (set: MethodSet)
        ensures
            set@ == Set::<Method>::empty(),
    {
        let set = MethodSet { flags: [false, false, false, false, false, false, false, false, false] };
        assert(set@ =~= Set::<Method>::empty());
        set
    }

    /// Whether `method` is in the set.
    pub fn contains(&self, method: Method) -> (present: bool)
        ensures
            present == self@.contains(method),
    {
        self.flags[method.index()]
    }

    /// Puts `method` into the set.
    pub fn insert(&mut self, method: Method)
        ensures
            final(self)@ == old(self)@.insert(method),
    {
        let i = method.index();
        self.flags[i] = true;
        assert(self@ =~= old(self)@.insert(method));
    }
}

/// `parts` written one after another with `separator` between neighbours.
pub open spec fn join(parts: Seq<Seq<char>>, separator: Seq<char>) -> Seq<char>
    decreases parts.len(),
{
    if parts.len() == 0 {
        Seq::empty()
    } else if parts.len() == 1 {
        parts[0]
    } else {
        join(parts.drop_last(), separator) + separator + parts.last()
    }
}

/// The members of `set` in declaration order.
pub open spec fn listed(set: Set<Method>) -> Seq<Method> {
    Method::all().filter(|m: Method| set.contains(m))
}

/// The value of an `Allow` header that lists `set`: the tokens of its members
/// in declaration order, separated by a comma and a space.
pub open spec fn allow_text(set: Set<Method>) -> Seq<char> {
    join(listed(set).map_values(|m: Method| m.name()), ", "@)
}

/// The views of a list of strings.
pub open spec fn texts(parts: Seq<String>) -> Seq<Seq<char>> {
    parts.map_values(|p: String| p@)
}

/// Joins `parts` with `separator` between neighbours.
pub fn join_strings(parts: &Vec<String>, separator: &str) -> (joined: String)
    ensures
        joined@ == join(texts(parts@), separator@),
{
    let mut joined = String::new();
    let mut i: usize = 0;
    while i < parts.len()
        invariant
            i <= parts.len(),
            joined@ == join(texts(parts@).take(i as int), separator@),
        decreases parts.len() - i,
    {
        let ghost before = texts(parts@).take(i as int);
        let ghost after = texts(parts@).take(i + 1);
        assert(after.drop_last() =~= before);
        assert(after.last() == parts@[i as int]@);
        if i > 0 {
            joined.append(separator);
        }
        joined.append(parts[i].as_str());
        assert(joined@ =~= join(after, separator@));
        i += 1;
    }
    assert(texts(parts@).take(i as int) =~= texts(parts@));
    joined
}

/// The value of the `Allow` header for a path that `supported` handles.
pub fn allow_header(supported: &MethodSet) -> (header: String)
    ensures
        header@ == allow_text(supported@),
{
    let ghost member = |m: Method| supported@.contains(m);
    let ghost token = |m: Method| m.name();
    let mut names: Vec<String> = Vec::new();
    let mut i: usize = 0;
    assert(Method::all().take(0) =~= Seq::<Method>::empty());
    assert(Seq::<Method>::empty().filter(member) =~= Seq::<Method>::empty()) by {
        reveal(Seq::filter);
    }
    while i < METHOD_COUNT
        invariant
            i <= METHOD_COUNT,
            member == |m: Method| supported@.contains(m),
            token == |m: Method| m.name(),
            texts(names@) =~= Method::all().take(i as int).filter(member).map_values(token),
        decreases METHOD_COUNT - i,
    {
        let method = Method::from_index(i);
        let ghost seen = Method::all().take(i as int);
        assert(Method::all().take(i + 1) =~= seen.push(method));
        proof {
            seen.lemma_filter_push(method, member);
        }
        let ghost kept = seen.filter(member);
        if supported.contains(method) {
            let ghost earlier = names@;
            names.push(method.to_name());
            assert(texts(names@) =~= texts(earlier).push(method.name()));
            assert(kept.push(method).map_values(token) =~= kept.map_values(token).push(
                method.name(),
            ));
        }
        i += 1;
    }
    assert(Method::all().take(METHOD_COUNT as int) =~= Method::all());
    join_strings(&names, ", ")
}

} // verus!
