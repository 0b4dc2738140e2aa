//! The versions of each app that were last found upstream.
use crate::strmap::StrMap;
use crate::text::copy_texts;
use vstd::prelude::*;

verus! {

/// The cache as it is stored: for each app its versions, newest first.
pub struct CyreneVersionsCache {
    pub versions: StrMap<Vec<String>>,
}

impl CyreneVersionsCache {
    /// A cache that knows no app.
    pub fn new() -> (r: Self)
        ensures
            r.versions.wf(),
            r.versions@ == Map::<Seq<char>, Seq<Seq<char>>>::empty(),
    {
        CyreneVersionsCache { versions: StrMap::new() }
    }

    /// Puts `versions` in place of whatever the cache held for the app.
    pub fn set_versions(&mut self, name: &str, versions: Vec<String>)
        requires
            old(self).versions.wf(),
        ensures
            final(self).versions.wf(),
            final(self).versions@ == old(self).versions@.insert(name@, versions.deep_view()),
    {
        self.versions.insert(name.to_owned(), versions);
    }
}

/// The cache, and the place where it is stored.
pub struct CyreneVersionCacheManager {
    cache_path: String,
    cache: CyreneVersionsCache,
}

/// The versions that a cache holds for an app: none where it does not know
/// the app.
pub open spec fn spec_cached(cache: Map<Seq<char>, Seq<Seq<char>>>, name: Seq<char>) -> Seq<
    Seq<char>,
> {
    if cache.contains_key(name) {
        cache[name]
    } else {
        Seq::empty()
    }
}

impl View for CyreneVersionCacheManager {
    type V = Map<Seq<char>, Seq<Seq<char>>>;

    closed spec fn view(&self) -> Map<Seq<char>, Seq<Seq<char>>> {
        self.cache.versions@
    }
}

impl CyreneVersionCacheManager {
    pub closed spec fn wf(&self) -> bool {
        self.cache.versions.wf()
    }

    pub closed spec fn spec_cache_path(&self) -> Seq<char> {
        self.cache_path@
    }

    /// A manager for the cache stored at `cache_path`, which starts out
    /// empty.
    pub fn new(cache_path: &str) -> (r: Self)
        ensures
            r.wf(),
            r@ == Map::<Seq<char>, Seq<Seq<char>>>::empty(),
            r.spec_cache_path() == cache_path@,
    {
        CyreneVersionCacheManager {
            cache_path: cache_path.to_owned(),
            cache: CyreneVersionsCache::new(),
        }
    }

    /// Takes over what was read from the cache's file.
    pub fn load(&mut self, cache: CyreneVersionsCache)
        requires
            cache.versions.wf(),
        ensures
            final(self).wf(),
            final(self)@ == cache.versions@,
            final(self).spec_cache_path() == old(self).spec_cache_path(),
    {
        self.cache = cache;
    }

    /// The place where the cache is stored.
    pub fn cache_path(&self) -> (r: &String)
        ensures
            r@ == self.spec_cache_path(),
    {
        &self.cache_path
    }

    /// The cache as it is to be stored.
    pub fn cache(&self) -> (r: &CyreneVersionsCache)
        ensures
            r.versions@ == self@,
            r.versions.wf() == self.wf(),
    {
        &self.cache
    }

    /// The cached versions of an app, newest first; none where the app is not
    /// known.
    pub fn get_versions(&self, name: &str) -> (r: Vec<String>)
        requires
            self.wf(),
        ensures
            r.deep_view() == spec_cached(self@, name@),
    {
        match self.cache.versions.get(name) {
            Some(some) => copy_texts(some),
            None => {
                let r: Vec<String> = Vec::new();
                assert(r.deep_view() =~= Seq::<Seq<char>>::empty());
                r
            },
        }
    }

    /// Puts `versions` in place of whatever was cached for the app.
    pub fn update_version_cache(&mut self, name: &str, versions: Vec<String>)
        requires
            old(self).wf(),
        ensures
            final(self).wf(),
            final(self)@ == old(self)@.insert(name@, versions.deep_view()),
            final(self).spec_cache_path() == old(self).spec_cache_path(),
    {
        self.cache.set_versions(name, versions);
    }
}

} // verus!
