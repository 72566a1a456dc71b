//! Request targets of the web front-end: the path, and the arguments of the
//! query string, percent-decoded.

use vstd::prelude::*;
use crate::text::{chars_of, string_of};

verus! {

/// Text with its percent-escapes decoded (invalid UTF-8 replaced).
pub uninterp spec fn percent_decoded(s: Seq<char>) -> Seq<char>;

/// Relies on `url_escape::decode`: the percent-decoding of `s`, which depends
/// on `s` alone.
#[verifier::external_body]
fn percent_decode(s: &str) -> (r: String)
    ensures
        r@ == percent_decoded(s@),
{
    url_escape::decode(s).into_owned()
}

/// Arguments of a request, by name. Each name has one value.
pub struct HttpArgs {
    entries: Vec<(String, String)>,
}

impl HttpArgs {
    /// The names in the order of their first insertion, each once.
    pub closed spec fn wf(&self) -> bool {
        forall|i: int, j: int|
            0 <= i < j < self.entries@.len() ==> #[trigger] self.entries@[i].0@ != #[trigger] self.entries@[j].0@
    }

    pub closed spec fn view(&self) -> Map<Seq<char>, Seq<char>> {
        Map::new(
            |k: Seq<char>| exists|i: int| 0 <= i < self.entries@.len() && #[trigger] self.entries@[i].0@ == k,
            |k: Seq<char>|
                self.entries@[choose|i: int| 0 <= i < self.entries@.len() && #[trigger] self.entries@[i].0@ == k].1@,
        )
    }

    /// No arguments.
    pub fn new() -> (r: HttpArgs)
        ensures
            r.wf(),
            r.view() == Map::<Seq<char>, Seq<char>>::empty(),
    {
        let r = HttpArgs { entries: Vec::new() };
        assert(r.view() =~= Map::<Seq<char>, Seq<char>>::empty());
        r
    }

    /// Sets argument `k` to `v`, replacing an earlier value of `k`.
    pub fn insert(&mut self, k: String, v: String)
        requires
            old(self).wf(),
        ensures
            final(self).wf(),
            final(self).view() == old(self).view().insert(k@, v@),
    {
        let mut i: usize = 0;
        while i < self.entries.len()
            invariant
                self.wf(),
                self.entries@ == old(self).entries@,
                i <= self.entries@.len(),
                forall|j: int| 0 <= j < i ==> #[trigger] self.entries@[j].0@ != k@,
            decreases self.entries@.len() - i,
        {
            if self.entries[i].0 == k {
                let ghost before = self.entries@;
                let ghost old_view = self.view();
                self.entries.set(i, (k, v));
                proof {
                    assert(self.entries@[i as int].0@ == before[i as int].0@);
                    assert forall|a: int, b: int| 0 <= a < b < self.entries@.len() implies #[trigger] self.entries@[a].0@
                        != #[trigger] self.entries@[b].0@ by {
                        assert(self.entries@[a].0@ == before[a].0@);
                        assert(self.entries@[b].0@ == before[b].0@);
                    }
                    assert forall|key: Seq<char>| #[trigger] self.view().contains_key(key) == old_view.insert(k@, v@).contains_key(key) by {
                        if old_view.contains_key(key) {
                            let w = choose|w: int| 0 <= w < before.len() && #[trigger] before[w].0@ == key;
                            assert(self.entries@[w].0@ == key);
                        }
                        if self.view().contains_key(key) {
                            let w = choose|w: int| 0 <= w < self.entries@.len() && #[trigger] self.entries@[w].0@ == key;
                            assert(before[w].0@ == key);
                        }
                    }
                    assert forall|key: Seq<char>| #[trigger] self.view().contains_key(key) implies self.view()[key]
                        == old_view.insert(k@, v@)[key] by {
                        let w = choose|w: int| 0 <= w < self.entries@.len() && #[trigger] self.entries@[w].0@ == key;
                        assert(before[w].0@ == key);
                        if key == k@ {
                            assert(w == i);
                        } else {
                            let w2 = choose|w2: int| 0 <= w2 < before.len() && #[trigger] before[w2].0@ == key;
                            assert(w2 == w);
                        }
                    }
                    assert(self.view() =~= old_view.insert(k@, v@));
                }
                return;
            }
            i = i + 1;
        }
        let ghost before = self.entries@;
        let ghost old_view = self.view();
        self.entries.push((k, v));
        proof {
            let n = before.len() as int;
            assert forall|a: int, b: int| 0 <= a < b < self.entries@.len() implies #[trigger] self.entries@[a].0@
                != #[trigger] self.entries@[b].0@ by {
                assert(self.entries@[a] == before[a]);
                if b < n {
                    assert(self.entries@[b] == before[b]);
                }
            }
            assert forall|key: Seq<char>| #[trigger] self.view().contains_key(key) == old_view.insert(k@, v@).contains_key(key) by {
                if old_view.contains_key(key) {
                    let w = choose|w: int| 0 <= w < before.len() && #[trigger] before[w].0@ == key;
                    assert(self.entries@[w] == before[w]);
                }
                if key == k@ {
                    assert(self.entries@[n].0@ == key);
                }
                if self.view().contains_key(key) {
                    let w = choose|w: int| 0 <= w < self.entries@.len() && #[trigger] self.entries@[w].0@ == key;
                    if w < n {
                        assert(self.entries@[w] == before[w]);
                    }
                }
            }
            assert forall|key: Seq<char>| #[trigger] self.view().contains_key(key) implies self.view()[key]
                == old_view.insert(k@, v@)[key] by {
                let w = choose|w: int| 0 <= w < self.entries@.len() && #[trigger] self.entries@[w].0@ == key;
                if w < n {
                    assert(self.entries@[w] == before[w]);
                    let w2 = choose|w2: int| 0 <= w2 < before.len() && #[trigger] before[w2].0@ == key;
                    assert(self.entries@[w2] == before[w2]);
                    assert(w2 == w);
                } else {
                    assert(w == n);
                }
            }
            assert(self.view() =~= old_view.insert(k@, v@));
        }
    }

    /// The value of argument `k`, if it was given.
    pub fn get(&self, k: &str) -> (r: Option<String>)
        requires
            self.wf(),
        ensures
            r matches Some(v) ==> self.view().contains_key(k@) && v@ == self.view()[k@],
            r is None ==> !self.view().contains_key(k@),
    {
        let key = k.to_owned();
        let mut i: usize = 0;
        while i < self.entries.len()
            invariant
                self.wf(),
                key@ == k@,
                i <= self.entries@.len(),
                forall|j: int| 0 <= j < i ==> #[trigger] self.entries@[j].0@ != k@,
            decreases self.entries@.len() - i,
        {
            if self.entries[i].0 == key {
                proof {
                    let w = choose|w: int| 0 <= w < self.entries@.len() && #[trigger] self.entries@[w].0@ == k@;
                    assert(w == i);
                }
                return Some(self.entries[i].1.clone());
            }
            i = i + 1;
        }
        None
    }
}


/// `c` first occurs in `s` at `i`.
pub open spec fn first_at(s: Seq<char>, c: char, i: int) -> bool {
    0 <= i < s.len() && s[i] == c && forall|j: int| 0 <= j < i ==> s[j] != c
}

/// The text before and after the first `c` of `s`, if there is one.
pub open spec fn split_once(s: Seq<char>, c: char) -> Option<(Seq<char>, Seq<char>)> {
    if exists|i: int| first_at(s, c, i) {
        let i = choose|i: int| first_at(s, c, i);
        Some((s.subrange(0, i), s.subrange(i + 1, s.len() as int)))
    } else {
        None
    }
}

/// The pieces of `s` between the occurrences of `sep`; one piece when `sep`
/// does not occur.
pub open spec fn split_on(s: Seq<char>, sep: char) -> Seq<Seq<char>>
    decreases s.len(),
{
    if s.len() == 0 {
        seq![Seq::empty()]
    } else {
        let pieces = split_on(s.drop_last(), sep);
        if s.last() == sep {
            pieces.push(Seq::empty())
        } else {
            pieces.update(pieces.len() - 1, pieces.last().push(s.last()))
        }
    }
}

pub proof fn lemma_split_on_nonempty(s: Seq<char>, sep: char)
    ensures
        split_on(s, sep).len() >= 1,
    decreases s.len(),
{
    if s.len() > 0 {
        lemma_split_on_nonempty(s.drop_last(), sep);
    }
}

/// The arguments that `name=value` pieces give, a later piece winning over
/// an earlier one of the same name; pieces without `=` give nothing.
pub open spec fn args_of(pieces: Seq<Seq<char>>) -> Map<Seq<char>, Seq<char>>
    decreases pieces.len(),
{
    if pieces.len() == 0 {
        Map::empty()
    } else {
        let m = args_of(pieces.drop_last());
        match split_once(pieces.last(), '=') {
            Some((k, v)) => m.insert(k, percent_decoded(v)),
            None => m,
        }
    }
}

/// The target after `/` is taken for `/index.html`.
pub open spec fn routed(t: Seq<char>) -> Seq<char> {
    if t == "/"@ {
        "/index.html"@
    } else {
        t
    }
}

/// The path of a request target.
pub open spec fn target_path(t: Seq<char>) -> Seq<char> {
    match split_once(routed(t), '?') {
        Some((p, _)) => p,
        None => routed(t),
    }
}

/// The query string of a request target.
pub open spec fn target_query(t: Seq<char>) -> Seq<char> {
    match split_once(routed(t), '?') {
        Some((_, q)) => q,
        None => Seq::empty(),
    }
}

/// Splits `s` at its first `c`.
pub fn split_once_chars(s: &[char], c: char) -> (r: Option<(Vec<char>, Vec<char>)>)
    ensures
        r matches Some(p) ==> split_once(s@, c) == Some((p.0@, p.1@)),
        r is None ==> split_once(s@, c) is None,
{
    let mut i: usize = 0;
    while i < s.len()
        invariant
            i <= s@.len(),
            forall|j: int| 0 <= j < i ==> s@[j] != c,
        decreases s@.len() - i,
    {
        if s[i] == c {
            assert(first_at(s@, c, i as int));
            assert forall|j: int| first_at(s@, c, j) implies j == i by {
                if j < i {
                } else if j > i {
                    assert(s@[i as int] == c);
                }
            }
            let before = copy_range(s, 0, i);
            let after = copy_range(s, i + 1, s.len());
            return Some((before, after));
        }
        i = i + 1;
    }
    None
}

/// A copy of `s[from..to]`.
fn copy_range(s: &[char], from: usize, to: usize) -> (r: Vec<char>)
    requires
        from <= to <= s@.len(),
    ensures
        r@ == s@.subrange(from as int, to as int),
{
    let mut out: Vec<char> = Vec::new();
    let mut i: usize = from;
    while i < to
        invariant
            from <= i <= to <= s@.len(),
            out@ == s@.subrange(from as int, i as int),
        decreases to - i,
    {
        out.push(s[i]);
        i = i + 1;
        assert(out@ =~= s@.subrange(from as int, i as int));
    }
    out
}

/// The pieces of `s` between the occurrences of `sep`.
pub fn split_chars(s: &[char], sep: char) -> (r: Vec<Vec<char>>)
    ensures
        r@.len() == split_on(s@, sep).len(),
        forall|k: int| 0 <= k < r@.len() ==> #[trigger] r@[k]@ == split_on(s@, sep)[k],
{
    let mut pieces: Vec<Vec<char>> = Vec::new();
    let mut current: Vec<char> = Vec::new();
    let mut i: usize = 0;
    proof {
        assert(s@.subrange(0, 0) =~= Seq::<char>::empty());
    }
    while i < s.len()
        invariant
            i <= s@.len(),
            pieces@.len() + 1 == split_on(s@.subrange(0, i as int), sep).len(),
            forall|k: int| 0 <= k < pieces@.len() ==> #[trigger] pieces@[k]@ == split_on(s@.subrange(0, i as int), sep)[k],
            current@ == split_on(s@.subrange(0, i as int), sep).last(),
        decreases s@.len() - i,
    {
        let ghost prev = split_on(s@.subrange(0, i as int), sep);
        let ghost t = s@.subrange(0, i + 1);
        proof {
            assert(t.drop_last() =~= s@.subrange(0, i as int));
            assert(t.last() == s@[i as int]);
            lemma_split_on_nonempty(s@.subrange(0, i as int), sep);
        }
        if s[i] == sep {
            pieces.push(current);
            current = Vec::new();
        } else {
            current.push(s[i]);
        }
        i = i + 1;
        proof {
            let next = split_on(s@.subrange(0, i as int), sep);
            assert forall|k: int| 0 <= k < pieces@.len() implies #[trigger] pieces@[k]@ == next[k] by {
                if k < prev.len() - 1 {
                    assert(pieces@[k]@ == prev[k]);
                }
            }
            assert(current@ =~= next.last());
        }
    }
    pieces.push(current);
    proof {
        assert(s@.subrange(0, i as int) =~= s@);
    }
    pieces
}

/// Splits a request target into its path and its arguments, after taking
/// `/` for `/index.html`: the path ends at the first `?`; the query string
/// after it is cut at each `&`, each piece at its first `=`, and each value
/// percent-decoded.
pub fn parse_target(target: &str) -> (r: (String, HttpArgs))
    ensures
        r.0@ == target_path(target@),
        r.1.wf(),
        r.1.view() == args_of(split_on(target_query(target@), '&')),
{
    let given = chars_of(target);
    proof {
        reveal_strlit("/");
    }
    let t = if given.len() == 1 && given[0] == '/' {
        assert(given@ =~= "/"@);
        chars_of("/index.html")
    } else {
        assert(given@ != "/"@) by {
            if given@ == "/"@ {
                assert(given@[0] == '/');
            }
        }
        given
    };
    assert(t@ == routed(target@));
    let (path, query) = match split_once_chars(t.as_slice(), '?') {
        Some((p, q)) => (p, q),
        None => (t, Vec::new()),
    };
    assert(query@ == target_query(target@));
    let pieces = split_chars(query.as_slice(), '&');
    let ghost all = split_on(query@, '&');
    let mut args = HttpArgs::new();
    let mut i: usize = 0;
    while i < pieces.len()
        invariant
            i <= pieces@.len(),
            pieces@.len() == all.len(),
            forall|k: int| 0 <= k < pieces@.len() ==> #[trigger] pieces@[k]@ == all[k],
            args.wf(),
            args.view() == args_of(all.subrange(0, i as int)),
        decreases pieces@.len() - i,
    {
        proof {
            let u = all.subrange(0, i + 1);
            assert(u.drop_last() =~= all.subrange(0, i as int));
            assert(u.last() == pieces@[i as int]@);
        }
        match split_once_chars(pieces[i].as_slice(), '=') {
            Some((k, v)) => {
                let value = percent_decode(string_of(v.as_slice()).as_str());
                args.insert(string_of(k.as_slice()), value);
            },
            None => {},
        }
        i = i + 1;
    }
    proof {
        assert(all.subrange(0, i as int) =~= all);
    }
    (string_of(path.as_slice()), args)
}


/// A call of the web API.
#[derive(Debug, PartialEq, Eq)]
pub enum ApiRequest {
    CreateClass { name: String },
    CreateUser { name: String, password: String },
}

/// Why an API call was refused.
#[derive(Debug, Clone, Copy, PartialEq, Eq, Structural)]
pub enum ApiError {
    /// Unknown operation, wrong method or missing argument.
    BadRequest,
}

/// The operation named by an API path: its first segment after `/api/`.
pub open spec fn api_operation(path: Seq<char>) -> Seq<char> {
    split_on(path.subrange(5, path.len() as int), '/')[0]
}

/// Reads an API call from its path (which starts with `/api/`), whether it
/// was made with `PUT`, and its arguments. Both operations need `PUT` and a
/// `name`; creating a user needs a `password` too.
pub fn route_api(path: &str, is_put: bool, args: &HttpArgs) -> (r: Result<ApiRequest, ApiError>)
    requires
        args.wf(),
        path@.len() >= 5,
        path@.subrange(0, 5) == "/api/"@,
    ensures
        api_operation(path@) == "create_class"@ ==> match r {
            Ok(ApiRequest::CreateClass { name }) => is_put && args.view().contains_key("name"@)
                && name@ == args.view()["name"@],
            Ok(_) => false,
            Err(_) => !is_put || !args.view().contains_key("name"@),
        },
        api_operation(path@) == "create_user"@ ==> match r {
            Ok(ApiRequest::CreateUser { name, password }) => is_put && args.view().contains_key("name"@)
                && args.view().contains_key("password"@) && name@ == args.view()["name"@]
                && password@ == args.view()["password"@],
            Ok(_) => false,
            Err(_) => !is_put || !args.view().contains_key("name"@) || !args.view().contains_key("password"@),
        },
        api_operation(path@) != "create_class"@ && api_operation(path@) != "create_user"@ ==> r is Err,
{
    let chars = chars_of(path);
    let rest = copy_range(chars.as_slice(), 5, chars.len());
    let segments = split_chars(rest.as_slice(), '/');
    proof {
        lemma_split_on_nonempty(rest@, '/');
        reveal_strlit("create_class");
        reveal_strlit("create_user");
        assert("create_class"@.len() == 12);
        assert("create_user"@.len() == 11);
    }
    let op = &segments[0];
    if crate::homework::same_chars(op.as_slice(), chars_of("create_class").as_slice()) {
        if !is_put {
            return Err(ApiError::BadRequest);
        }
        match args.get("name") {
            Some(name) => Ok(ApiRequest::CreateClass { name }),
            None => Err(ApiError::BadRequest),
        }
    } else if crate::homework::same_chars(op.as_slice(), chars_of("create_user").as_slice()) {
        if !is_put {
            return Err(ApiError::BadRequest);
        }
        let name = match args.get("name") {
            Some(n) => n,
            None => return Err(ApiError::BadRequest),
        };
        match args.get("password") {
            Some(password) => Ok(ApiRequest::CreateUser { name, password }),
            None => Err(ApiError::BadRequest),
        }
    } else {
        Err(ApiError::BadRequest)
    }
}

} // verus!
