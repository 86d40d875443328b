//! What an HTTP filter works on and what it decides.

use vstd::prelude::*;

use crate::store::registry::ResponseStoreRegistry;
use crate::text::same_text;

verus! {

// ---------------------------------------------------------------------------
// Actions
// ---------------------------------------------------------------------------

/// A response that ends a request.
#[derive(Debug, PartialEq, Eq)]
pub struct Rejection {
    /// The status code.
    pub status: u16,
    /// Header names and values.
    pub headers: Vec<(String, String)>,
    /// The body, where there is one.
    pub body: Option<Vec<u8>>,
}

/// What a rejection denotes.
#[verifier::ext_equal]
pub struct RejectionView {
    pub status: u16,
    pub headers: Seq<(Seq<char>, Seq<char>)>,
    pub body: Option<Seq<u8>>,
}

/// What pairs of strings denote, one by one.
pub open spec fn pair_views(pairs: Seq<(String, String)>) -> Seq<(Seq<char>, Seq<char>)> {
    Seq::new(pairs.len(), |i: int| (pairs[i].0@, pairs[i].1@))
}

impl View for Rejection {
    type V = RejectionView;

    open spec fn view(&self) -> RejectionView {
        RejectionView {
            status: self.status,
            headers: pair_views(self.headers@),
            body: match self.body {
                Some(body) => Some(body@),
                None => None,
            },
        }
    }
}

impl Rejection {
    /// A rejection with a status alone.
    pub fn status(status: u16) -> (rejection: Rejection)
        ensures
            rejection@ == (RejectionView { status, headers: Seq::empty(), body: None }),
    {
        let rejection = Rejection { status, headers: Vec::new(), body: None };
        assert(pair_views(rejection.headers@) =~= Seq::empty());
        rejection
    }

    /// The rejection with one header more.
    pub fn with_header(self, name: &str, value: &str) -> (rejection: Rejection)
        ensures
            rejection@ == (RejectionView { headers: self@.headers.push((name@, value@)), ..self@ }),
    {
        let ghost before = self.headers@;
        let mut rejection = self;
        rejection.headers.push((name.to_owned(), value.to_owned()));
        assert(pair_views(rejection.headers@) =~= pair_views(before).push((name@, value@)));
        rejection
    }

    /// The rejection with a body.
    pub fn with_body(self, body: Vec<u8>) -> (rejection: Rejection)
        ensures
            rejection@ == (RejectionView { body: Some(body@), ..self@ }),
    {
        Rejection { status: self.status, headers: self.headers, body: Some(body) }
    }
}

/// What becomes of a request.
#[derive(Debug, PartialEq, Eq)]
pub enum FilterAction {
    /// The next filter runs.
    Continue,
    /// The buffered body goes on.
    Release,
    /// The request ends here.
    Reject(Rejection),
}

/// What an action denotes.
#[verifier::ext_equal]
pub enum ActionView {
    Continue,
    Release,
    Reject(RejectionView),
}

impl View for FilterAction {
    type V = ActionView;

    open spec fn view(&self) -> ActionView {
        match self {
            FilterAction::Continue => ActionView::Continue,
            FilterAction::Release => ActionView::Release,
            FilterAction::Reject(rejection) => ActionView::Reject(rejection@),
        }
    }
}

/// Why a filter could not decide.
#[derive(Debug, PartialEq, Eq)]
pub struct FilterError {
    /// The error in words.
    pub message: String,
}

// ---------------------------------------------------------------------------
// Context
// ---------------------------------------------------------------------------

/// What filters have noted of a request: values under keys.
#[derive(Debug)]
pub struct Metadata {
    entries: Vec<(String, String)>,
}

impl View for Metadata {
    type V = Map<Seq<char>, Seq<char>>;

    closed spec fn view(&self) -> Map<Seq<char>, Seq<char>> {
        crate::json::entries_map(pair_views(self.entries@))
    }
}

impl Metadata {
    /// No entries.
    pub fn new() -> (metadata: Metadata)
        ensures
            metadata@ == Map::<Seq<char>, Seq<char>>::empty(),
    {
        let metadata = Metadata { entries: Vec::new() };
        assert(pair_views(metadata.entries@) =~= Seq::empty());
        metadata
    }

    fn place_of(&self, key: &str) -> (found: Option<usize>)
        ensures
            match found {
                Some(at) => at < self.entries@.len() && self.entries@[at as int].0@ == key@ && forall|j: int|
                    at < j < self.entries@.len() ==> (#[trigger] self.entries@[j]).0@ != key@,
                None => forall|j: int| 0 <= j < self.entries@.len() ==> (#[trigger] self.entries@[j]).0@ != key@,
            },
    {
        let mut i: usize = self.entries.len();
        while i > 0
            invariant
                i <= self.entries@.len(),
                forall|j: int| i <= j < self.entries@.len() ==> (#[trigger] self.entries@[j]).0@ != key@,
            decreases i,
        {
            i = i - 1;
            if same_text(self.entries[i].0.as_str(), key) {
                return Some(i);
            }
        }
        None
    }

    /// The value under a key.
    pub fn get(&self, key: &str) -> (value: Option<&str>)
        ensures
            match value {
                Some(text) => self@.contains_key(key@) && self@[key@] == text@,
                None => !self@.contains_key(key@),
            },
    {
        let ghost views = pair_views(self.entries@);
        match self.place_of(key) {
            Some(at) => {
                proof {
                    crate::json::lemma_entries_hold(views, key@, at as int);
                }
                Some(self.entries[at].1.as_str())
            },
            None => {
                proof {
                    crate::json::lemma_entries_lack(views, key@);
                }
                None
            },
        }
    }

    /// Puts a value under a key, in place of an earlier one.
    pub fn set(&mut self, key: &str, value: &str)
        ensures
            final(self)@ == old(self)@.insert(key@, value@),
    {
        let ghost before = pair_views(self.entries@);
        match self.place_of(key) {
            Some(at) => {
                self.entries[at].1 = value.to_owned();
                proof {
                    crate::json::lemma_entries_update(before, key@, at as int, value@);
                    assert(pair_views(self.entries@) =~= before.update(at as int, (key@, value@)));
                }
            },
            None => {
                self.entries.push((key.to_owned(), value.to_owned()));
                assert(pair_views(self.entries@).drop_last() =~= before);
            },
        }
    }
}

/// What a filter sees of a request.
pub struct HttpFilterContext<'a, T> {
    /// The request's method.
    pub method: String,
    /// What filters have noted of the request.
    pub metadata: Metadata,
    /// The stores of the server, where it has any.
    pub response_stores: Option<&'a ResponseStoreRegistry<T>>,
}

impl<'a, T> HttpFilterContext<'a, T> {
    /// The context of a request of which nothing is noted yet.
    pub fn new(method: &str, response_stores: Option<&'a ResponseStoreRegistry<T>>) -> (ctx: HttpFilterContext<'a, T>)
        ensures
            ctx.method@ == method@,
            ctx.metadata@ == Map::<Seq<char>, Seq<char>>::empty(),
            ctx.response_stores == response_stores,
    {
        HttpFilterContext { method: method.to_owned(), metadata: Metadata::new(), response_stores }
    }

    /// What is noted under a key.
    pub fn get_metadata(&self, key: &str) -> (value: Option<&str>)
        ensures
            match value {
                Some(text) => self.metadata@.contains_key(key@) && self.metadata@[key@] == text@,
                None => !self.metadata@.contains_key(key@),
            },
    {
        self.metadata.get(key)
    }

    /// Notes a value under a key, in place of an earlier one.
    pub fn set_metadata(&mut self, key: &str, value: &str)
        ensures
            final(self).metadata@ == old(self).metadata@.insert(key@, value@),
            final(self).method == old(self).method,
            final(self).response_stores == old(self).response_stores,
    {
        self.metadata.set(key, value);
    }
}

// ---------------------------------------------------------------------------
// Laws
// ---------------------------------------------------------------------------

/// The view of a rejection holds its status, every header of it at its place, and
/// its body, whole.
pub proof fn lemma_rejection_view_is_whole(rejection: Rejection, i: int)
    ensures
        rejection@.status == rejection.status,
        rejection@.headers.len() == rejection.headers@.len(),
        0 <= i < rejection.headers@.len() ==> rejection@.headers[i] == (
            rejection.headers@[i].0@,
            rejection.headers@[i].1@,
        ),
        rejection.body matches Some(body) ==> rejection@.body == Some(body@),
        rejection.body is None ==> rejection@.body is None,
        FilterAction::Reject(rejection)@ == ActionView::Reject(rejection@),
        FilterAction::Continue@ == ActionView::Continue,
        FilterAction::Release@ == ActionView::Release,
{
}

} // verus!
