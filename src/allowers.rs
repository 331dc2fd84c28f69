//! The static allow-list of bearer tokens and the check of an
//! `Authorization` header against it.
use vstd::prelude::*;
use vstd::string::{StrSliceExecFns, StringExecFns};
use crate::outcome::bearer_prefix;

verus! {

/// One configured token and the name of its holder.
#[derive(Clone, Debug)]
pub struct BearerTokenItem {
    pub name: String,
    pub token: String,
}

/// Token to holder name; where a token is listed twice the later entry wins.
pub open spec fn items_map(items: Seq<BearerTokenItem>) -> Map<Seq<char>, Seq<char>>
    decreases items.len(),
{
    if items.len() == 0 {
        Map::empty()
    } else {
        items_map(items.drop_last()).insert(items.last().token@, items.last().name@)
    }
}

proof fn lemma_items_map_keys(items: Seq<BearerTokenItem>, k: Seq<char>)
    ensures
        items_map(items).contains_key(k) <==> exists|i: int|
            0 <= i < items.len() && (#[trigger] items[i]).token@ == k,
    decreases items.len(),
{
    if items.len() > 0 {
        let p = items.drop_last();
        lemma_items_map_keys(p, k);
        if items_map(items).contains_key(k) && items.last().token@ != k {
            let i = choose|i: int| 0 <= i < p.len() && (#[trigger] p[i]).token@ == k;
            assert(items[i] == p[i]);
        }
        if exists|i: int| 0 <= i < items.len() && (#[trigger] items[i]).token@ == k {
            let i = choose|i: int| 0 <= i < items.len() && (#[trigger] items[i]).token@ == k;
            if i < p.len() {
                assert(p[i] == items[i]);
            }
        }
    }
}

/// The holders of the tokens that may pass.
#[derive(Clone, Debug)]
pub struct BearerTokenProvider {
    bearer_tokens: Vec<BearerTokenItem>,
}

impl View for BearerTokenProvider {
    type V = Map<Seq<char>, Seq<char>>;

    closed spec fn view(&self) -> Map<Seq<char>, Seq<char>> {
        items_map(self.bearer_tokens@)
    }
}

/// The token of an `Authorization` value `Bearer <token>`, if it has that form.
pub open spec fn header_token(h: Seq<char>) -> Option<Seq<char>> {
    if h.len() >= 7 && h.take(7) == bearer_prefix() {
        Some(h.skip(7))
    } else {
        None
    }
}

/// The token that an `Authorization` header value carries, if it is
/// `Bearer <token>`.
pub fn token_from_header(h: &String) -> (r: Option<String>)
    ensures
        match r {
            Some(t) => header_token(h@) == Some(t@),
            None => header_token(h@) is None,
        },
{
    let s = h.as_str();
    let n = s.unicode_len();
    proof {
        reveal_strlit("Bearer ");
        assert("Bearer "@ =~= bearer_prefix());
    }
    if n < 7 {
        return None;
    }
    let p = "Bearer ";
    let mut i: usize = 0;
    while i < 7
        invariant
            i <= 7,
            n == h@.len(),
            n >= 7,
            s@ == h@,
            p@ == bearer_prefix(),
            h@.take(i as int) == bearer_prefix().take(i as int),
        decreases 7 - i,
    {
        if s.get_char(i) != p.get_char(i) {
            assert(h@.take(7)[i as int] != bearer_prefix()[i as int]);
            return None;
        }
        assert(h@.take(i as int + 1) =~= h@.take(i as int).push(h@[i as int]));
        assert(bearer_prefix().take(i as int + 1) =~= bearer_prefix().take(i as int).push(
            bearer_prefix()[i as int],
        ));
        i = i + 1;
    }
    assert(bearer_prefix().take(7) =~= bearer_prefix());
    let rest = s.substring_char(7, n);
    assert(rest@ =~= h@.skip(7));
    Some(String::from_str(rest))
}

impl BearerTokenProvider {
    /// The allow-list of the loaded configuration, if one was given.
    pub fn new(items: Option<Vec<BearerTokenItem>>) -> (r: Option<Self>)
        ensures
            match items {
                None => r is None,
                Some(v) => r matches Some(p) && p@ == items_map(v@),
            },
    {
        match items {
            None => None,
            Some(v) => Some(BearerTokenProvider { bearer_tokens: v }),
        }
    }

    /// Whether `token` is on the list.
    pub fn allowed(&self, token: &String) -> (r: bool)
        ensures
            r == self@.contains_key(token@),
    {
        let mut i: usize = 0;
        while i < self.bearer_tokens.len()
            invariant
                i <= self.bearer_tokens@.len(),
                forall|j: int| 0 <= j < i ==> (#[trigger] self.bearer_tokens@[j]).token@ != token@,
            decreases self.bearer_tokens@.len() - i,
        {
            if self.bearer_tokens[i].token == *token {
                proof {
                    lemma_items_map_keys(self.bearer_tokens@, token@);
                }
                return true;
            }
            i = i + 1;
        }
        proof {
            lemma_items_map_keys(self.bearer_tokens@, token@);
        }
        false
    }

    /// Whether a request with this `Authorization` value may pass: it must be
    /// `Bearer <token>` with a listed token.
    pub fn authorize(&self, header: Option<String>) -> (r: bool)
        ensures
            r == (header matches Some(h) && header_token(h@) matches Some(t)
                && self@.contains_key(t)),
    {
        match header {
            None => false,
            Some(h) => match token_from_header(&h) {
                None => false,
                Some(t) => self.allowed(&t),
            },
        }
    }
}

} // verus!
