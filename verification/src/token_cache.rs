//! The cache of access tokens of WeCom.
use crate::clock::Span;
use crate::text::{opt_view, same_text};
use vstd::prelude::*;

verus! {

/// Whom a token is for: the corporation and the secret of its application.
pub type TokenKey = (Seq<char>, Seq<char>);

/// A token, and the time in nanoseconds at which it is to be fetched anew.
pub struct CachedToken {
    pub token: Seq<char>,
    pub refresh_at: int,
}

struct WecomTokenCacheEntry {
    corp_id: String,
    secret: String,
    token: String,
    refresh_at: u128,
}

impl WecomTokenCacheEntry {
    spec fn key(self) -> TokenKey {
        (self.corp_id@, self.secret@)
    }

    spec fn cached(self) -> CachedToken {
        CachedToken { token: self.token@, refresh_at: self.refresh_at as int }
    }
}

/// Access tokens, at most one for each corporation and secret.
pub struct WecomTokenCache {
    entries: Vec<WecomTokenCacheEntry>,
}

/// Whether no key occurs twice.
spec fn keys_differ(entries: Seq<WecomTokenCacheEntry>) -> bool {
    forall|i: int, j: int|
        0 <= i < j < entries.len() ==> (#[trigger] entries[i]).key() != (#[trigger] entries[j]).key()
}

/// Whether the entry at `i` is for `key`.
spec fn is_at(entries: Seq<WecomTokenCacheEntry>, i: int, key: TokenKey) -> bool {
    0 <= i < entries.len() && entries[i].key() == key
}

spec fn tokens_of(entries: Seq<WecomTokenCacheEntry>) -> Map<TokenKey, CachedToken> {
    Map::new(
        |key: TokenKey| exists|i: int| is_at(entries, i, key),
        |key: TokenKey| entries[choose|i: int| is_at(entries, i, key)].cached(),
    )
}

/// The entry at `i` is what the cache holds for its key.
proof fn lemma_entry(entries: Seq<WecomTokenCacheEntry>, i: int)
    requires
        keys_differ(entries),
        0 <= i < entries.len(),
    ensures
        tokens_of(entries).contains_key(entries[i].key()),
        tokens_of(entries)[entries[i].key()] == entries[i].cached(),
{
    let key = entries[i].key();
    assert(is_at(entries, i, key));
    let j = choose|j: int| is_at(entries, j, key);
    if i < j {
        assert(entries[i].key() != entries[j].key());
    } else if j < i {
        assert(entries[j].key() != entries[i].key());
    }
}

proof fn lemma_no_entry(entries: Seq<WecomTokenCacheEntry>, key: TokenKey)
    requires
        forall|i: int| 0 <= i < entries.len() ==> (#[trigger] entries[i]).key() != key,
    ensures
        !tokens_of(entries).contains_key(key),
{
    assert forall|i: int| !is_at(entries, i, key) by {
        if 0 <= i < entries.len() {
            assert(entries[i].key() != key);
        }
    }
}

proof fn lemma_removed(entries: Seq<WecomTokenCacheEntry>, i: int)
    requires
        keys_differ(entries),
        0 <= i < entries.len(),
    ensures
        keys_differ(entries.remove(i)),
        tokens_of(entries.remove(i)) == tokens_of(entries).remove(entries[i].key()),
        forall|j: int|
            0 <= j < entries.len() - 1 ==> (#[trigger] entries.remove(i)[j]).key()
                != entries[i].key(),
{
    let rest = entries.remove(i);
    let gone = entries[i].key();
    let old_index = |j: int| if j < i { j } else { j + 1 };
    assert forall|j: int| 0 <= j < rest.len() implies (#[trigger] rest[j]).key() != gone && rest[j]
        == entries[old_index(j)] by {
        assert(rest[j] == entries[old_index(j)]);
        if j < i {
            assert(entries[j].key() != entries[i].key());
        } else {
            assert(entries[i].key() != entries[j + 1].key());
        }
    }
    assert forall|j: int, k: int| 0 <= j < k < rest.len() implies (#[trigger] rest[j]).key() != (
    #[trigger] rest[k]).key() by {
        assert(entries[old_index(j)].key() != entries[old_index(k)].key());
    }
    let expected = tokens_of(entries).remove(gone);
    assert forall|key: TokenKey| #[trigger] tokens_of(rest).dom().contains(key)
        == expected.dom().contains(key) by {
        if tokens_of(rest).contains_key(key) {
            let j = choose|j: int| is_at(rest, j, key);
            assert(rest[j].key() != gone);
            assert(is_at(entries, old_index(j), key));
        } else if tokens_of(entries).contains_key(key) && key != gone {
            let j = choose|j: int| is_at(entries, j, key);
            let k = if j < i { j } else { j - 1 };
            assert(is_at(rest, k, key));
        }
    }
    assert forall|key: TokenKey| tokens_of(rest).dom().contains(key) implies #[trigger] tokens_of(
        rest,
    )[key] == expected[key] by {
        let j = choose|j: int| is_at(rest, j, key);
        assert(rest[j].key() != gone);
        lemma_entry(rest, j);
        lemma_entry(entries, old_index(j));
    }
    assert(tokens_of(rest) =~= expected);
}

proof fn lemma_added(entries: Seq<WecomTokenCacheEntry>, entry: WecomTokenCacheEntry)
    requires
        keys_differ(entries),
        forall|i: int| 0 <= i < entries.len() ==> (#[trigger] entries[i]).key() != entry.key(),
    ensures
        keys_differ(entries.push(entry)),
        tokens_of(entries.push(entry)) == tokens_of(entries).insert(entry.key(), entry.cached()),
{
    let all = entries.push(entry);
    assert forall|j: int, k: int| 0 <= j < k < all.len() implies (#[trigger] all[j]).key() != (
    #[trigger] all[k]).key() by {
        assert(all[j] == entries[j]);
        if k < entries.len() {
            assert(all[k] == entries[k]);
        }
    }
    let expected = tokens_of(entries).insert(entry.key(), entry.cached());
    lemma_entry(all, entries.len() as int);
    assert forall|key: TokenKey| #[trigger] tokens_of(all).dom().contains(key)
        == expected.dom().contains(key) by {
        if key != entry.key() {
            if tokens_of(all).contains_key(key) {
                let j = choose|j: int| is_at(all, j, key);
                assert(is_at(entries, j, key));
            } else if tokens_of(entries).contains_key(key) {
                let j = choose|j: int| is_at(entries, j, key);
                assert(is_at(all, j, key));
            }
        }
    }
    assert forall|key: TokenKey| tokens_of(all).dom().contains(key) implies #[trigger] tokens_of(
        all,
    )[key] == expected[key] by {
        if key != entry.key() {
            let j = choose|j: int| is_at(all, j, key);
            assert(all[j] == entries[j]);
            lemma_entry(all, j);
            lemma_entry(entries, j);
        }
    }
    assert(tokens_of(all) =~= expected);
}

/// The token that a cache gives at a time: the one that it holds, unless that is due to be
/// fetched anew.
pub open spec fn fresh_token(
    tokens: Map<TokenKey, CachedToken>,
    key: TokenKey,
    now: Span,
) -> Option<Seq<char>> {
    if tokens.contains_key(key) && now.total_nanos() < tokens[key].refresh_at {
        Some(tokens[key].token)
    } else {
        None
    }
}

impl View for WecomTokenCache {
    type V = Map<TokenKey, CachedToken>;

    closed spec fn view(&self) -> Map<TokenKey, CachedToken> {
        tokens_of(self.entries@)
    }
}

impl WecomTokenCache {
    #[verifier::type_invariant]
    spec fn has_one_token_for_each_key(self) -> bool {
        keys_differ(self.entries@)
    }

    /// A cache without tokens.
    pub fn new() -> (cache: WecomTokenCache)
        ensures
            cache@ == Map::<TokenKey, CachedToken>::empty(),
    {
        let cache = WecomTokenCache { entries: Vec::new() };
        assert(cache@ =~= Map::<TokenKey, CachedToken>::empty());
        cache
    }

    fn position(entries: &Vec<WecomTokenCacheEntry>, corp_id: &str, secret: &str) -> (index: Option<
        usize,
    >)
        ensures
            match index {
                Some(i) => i < entries@.len() && entries@[i as int].key() == (corp_id@, secret@),
                None => forall|i: int|
                    0 <= i < entries@.len() ==> (#[trigger] entries@[i]).key() != (
                        corp_id@,
                        secret@,
                    ),
            },
    {
        let mut i: usize = 0;
        while i < entries.len()
            invariant
                i <= entries@.len(),
                forall|j: int|
                    0 <= j < i ==> (#[trigger] entries@[j]).key() != (corp_id@, secret@),
            decreases entries@.len() - i,
        {
            if same_text(entries[i].corp_id.as_str(), corp_id)
                && same_text(entries[i].secret.as_str(), secret) {
                return Some(i);
            }
            i = i + 1;
        }
        None
    }

    /// The token for a corporation and secret, where there is one that is not yet due.
    pub fn get(&self, corp_id: &str, secret: &str, now: Span) -> (token: Option<String>)
        ensures
            opt_view(token) == fresh_token(self@, (corp_id@, secret@), now),
    {
        proof {
            use_type_invariant(self);
        }
        match Self::position(&self.entries, corp_id, secret) {
            Some(i) => {
                proof {
                    lemma_entry(self.entries@, i as int);
                }
                if now.as_nanos() < self.entries[i].refresh_at {
                    Some(self.entries[i].token.clone())
                } else {
                    None
                }
            },
            None => {
                proof {
                    lemma_no_entry(self.entries@, (corp_id@, secret@));
                }
                None
            },
        }
    }

    /// Forgets the token for a corporation and secret.
    pub fn remove(&mut self, corp_id: &str, secret: &str)
        ensures
            final(self)@ == old(self)@.remove((corp_id@, secret@)),
    {
        proof {
            use_type_invariant(&*self);
        }
        let mut entries: Vec<WecomTokenCacheEntry> = Vec::new();
        std::mem::swap(&mut entries, &mut self.entries);
        match Self::position(&entries, corp_id, secret) {
            Some(i) => {
                proof {
                    lemma_removed(entries@, i as int);
                }
                entries.remove(i);
            },
            None => {
                proof {
                    lemma_no_entry(entries@, (corp_id@, secret@));
                    assert(tokens_of(entries@).remove((corp_id@, secret@)) =~= tokens_of(
                        entries@,
                    ));
                }
            },
        }
        self.entries = entries;
    }

    /// Keeps a token for a corporation and secret, in place of any other.
    pub fn insert(&mut self, corp_id: &str, secret: &str, token: &str, refresh_at: u128)
        ensures
            final(self)@ == old(self)@.insert(
                (corp_id@, secret@),
                (CachedToken { token: token@, refresh_at: refresh_at as int }),
            ),
    {
        self.remove(corp_id, secret);
        proof {
            use_type_invariant(&*self);
        }
        let entry = WecomTokenCacheEntry {
            corp_id: corp_id.to_owned(),
            secret: secret.to_owned(),
            token: token.to_owned(),
            refresh_at,
        };
        let mut entries: Vec<WecomTokenCacheEntry> = Vec::new();
        std::mem::swap(&mut entries, &mut self.entries);
        proof {
            assert forall|i: int| 0 <= i < entries@.len() implies (#[trigger] entries@[i]).key()
                != entry.key() by {
                lemma_entry(entries@, i);
            }
            lemma_added(entries@, entry);
        }
        entries.push(entry);
        self.entries = entries;
        assert(final(self)@ =~= old(self)@.insert(
            (corp_id@, secret@),
            CachedToken { token: token@, refresh_at: refresh_at as int },
        ));
    }
}

/// After how many seconds a token that expires after `expires_in` is fetched anew: well
/// before it expires.
pub open spec fn refresh_after_secs(expires_in: Option<u64>) -> u64 {
    let stated = match expires_in {
        Some(secs) => secs,
        None => 7200,
    };
    let secs = if stated < 1 {
        1
    } else {
        stated
    };
    if secs > 600 {
        (secs - 300) as u64
    } else if secs / 2 < 1 {
        1
    } else {
        secs / 2
    }
}

/// After how many seconds a token is fetched anew.
pub fn refresh_after(expires_in: Option<u64>) -> (secs: u64)
    ensures
        secs == refresh_after_secs(expires_in),
{
    let stated: u64 = match expires_in {
        Some(secs) => secs,
        None => 7200,
    };
    let secs: u64 = if stated < 1 { 1 } else { stated };
    if secs > 600 {
        secs - 300
    } else if secs / 2 < 1 {
        1
    } else {
        secs / 2
    }
}

/// A token that lasts for two seconds or longer is fetched anew before it expires, and a
/// token that lasts for more than ten minutes five minutes before; no token is fetched
/// anew at once.
pub proof fn law_tokens_are_refreshed_in_time(expires_in: Option<u64>)
    ensures
        refresh_after_secs(expires_in) >= 1,
        expires_in matches Some(secs) ==> (secs >= 2 ==> refresh_after_secs(expires_in) < secs),
        expires_in matches Some(secs) ==> (secs > 600 ==> refresh_after_secs(expires_in) + 300
            == secs),
{
}

} // verus!
