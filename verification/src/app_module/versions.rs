//! Finding the versions of an app upstream: the walk through the pages of a
//! release listing, and what is made of the tags.
use crate::text::{replace, spec_replace, spec_strip_prefix, strip_prefix};
use vstd::prelude::*;
use vstd::string::*;

verus! {

/// The number of releases asked for per page.
pub const PAGE_SIZE: usize = 100;

/// The number of pages after which the walk ends.
pub const PAGE_CAP: u32 = 10;

/// One release of a listing.
#[derive(Debug, PartialEq, Eq)]
pub struct GitHubVersion {
    pub tag_name: String,
    pub prerelease: bool,
}

impl DeepView for GitHubVersion {
    type V = (Seq<char>, bool);

    open spec fn deep_view(&self) -> (Seq<char>, bool) {
        (self.tag_name@, self.prerelease)
    }
}

/// The tags of the releases of a page that are no pre-releases, in the order
/// of the page.
pub open spec fn spec_stable_tags(page: Seq<(Seq<char>, bool)>) -> Seq<Seq<char>>
    decreases page.len(),
{
    if page.len() == 0 {
        Seq::empty()
    } else if page.last().1 {
        spec_stable_tags(page.drop_last())
    } else {
        spec_stable_tags(page.drop_last()).push(page.last().0)
    }
}

/// The tags of the releases of a page that are no pre-releases.
pub fn stable_tags(page: &Vec<GitHubVersion>) -> (r: Vec<String>)
    ensures
        r.deep_view() == spec_stable_tags(page.deep_view()),
{
    let mut out: Vec<String> = Vec::new();
    let mut i: usize = 0;
    assert(page.deep_view().take(0) =~= Seq::<(Seq<char>, bool)>::empty());
    while i < page.len()
        invariant
            i <= page.len(),
            out.deep_view() == spec_stable_tags(page.deep_view().take(i as int)),
        decreases page.len() - i,
    {
        proof {
            let next = page.deep_view().take(i + 1);
            assert(next.drop_last() =~= page.deep_view().take(i as int));
            assert(next.last() == page[i as int].deep_view());
        }
        if !page[i].prerelease {
            let ghost before = out.deep_view();
            out.push(page[i].tag_name.clone());
            assert(out.deep_view() =~= before.push(page[i as int].tag_name@));
        }
        i += 1;
    }
    assert(page.deep_view().take(page.len() as int) =~= page.deep_view());
    out
}

/// The walk as contracts see it.
pub struct PagerView {
    /// The page that is asked for next.
    pub page: int,
    /// The tags found so far.
    pub versions: Seq<Seq<char>>,
    /// Whether a page came back short.
    pub exhausted: bool,
}

impl PagerView {
    /// The page to ask for, unless the walk has ended: a page came back with
    /// fewer releases than were asked for, or the last page allowed has been
    /// seen.
    pub open spec fn next_page(self) -> Option<int> {
        if !self.exhausted && self.page <= PAGE_CAP {
            Some(self.page)
        } else {
            None
        }
    }

    /// The walk after a page has come back. A page that was not asked for
    /// changes nothing.
    pub open spec fn accept(self, page: Seq<(Seq<char>, bool)>) -> PagerView {
        if self.next_page() is None {
            self
        } else {
            PagerView {
                page: self.page + 1,
                versions: self.versions + spec_stable_tags(page),
                exhausted: page.len() < PAGE_SIZE,
            }
        }
    }
}

/// The walk through the pages of the releases of a repository.
pub struct ReleasePager {
    repo: String,
    page: u32,
    versions: Vec<String>,
    exhausted: bool,
}

impl View for ReleasePager {
    type V = PagerView;

    closed spec fn view(&self) -> PagerView {
        PagerView {
            page: self.page as int,
            versions: self.versions.deep_view(),
            exhausted: self.exhausted,
        }
    }
}

/// The digit that stands for `d`.
pub open spec fn spec_digit(d: int) -> char {
    if d == 0 {
        '0'
    } else if d == 1 {
        '1'
    } else if d == 2 {
        '2'
    } else if d == 3 {
        '3'
    } else if d == 4 {
        '4'
    } else if d == 5 {
        '5'
    } else if d == 6 {
        '6'
    } else if d == 7 {
        '7'
    } else if d == 8 {
        '8'
    } else {
        '9'
    }
}

/// A number written out in base ten.
pub open spec fn spec_decimal(n: nat) -> Seq<char>
    decreases n,
{
    if n < 10 {
        seq![spec_digit(n as int)]
    } else {
        spec_decimal(n / 10).push(spec_digit((n % 10) as int))
    }
}

fn digit_text(d: u32) -> (r: &'static str)
    requires
        d < 10,
    ensures
        r@ == seq![spec_digit(d as int)],
{
    proof {
        reveal_strlit("0");
        reveal_strlit("1");
        reveal_strlit("2");
        reveal_strlit("3");
        reveal_strlit("4");
        reveal_strlit("5");
        reveal_strlit("6");
        reveal_strlit("7");
        reveal_strlit("8");
        reveal_strlit("9");
    }
    let r = if d == 0 {
        "0"
    } else if d == 1 {
        "1"
    } else if d == 2 {
        "2"
    } else if d == 3 {
        "3"
    } else if d == 4 {
        "4"
    } else if d == 5 {
        "5"
    } else if d == 6 {
        "6"
    } else if d == 7 {
        "7"
    } else if d == 8 {
        "8"
    } else {
        "9"
    };
    assert(r@ =~= seq![spec_digit(d as int)]);
    r
}

/// Writes a number out in base ten.
pub fn decimal(n: u32) -> (r: String)
    ensures
        r@ == spec_decimal(n as nat),
    decreases n,
{
    if n < 10 {
        digit_text(n).to_owned()
    } else {
        let mut s = decimal(n / 10);
        s.append(digit_text(n % 10));
        assert(s@ =~= spec_decimal((n / 10) as nat).push(spec_digit((n % 10) as int)));
        s
    }
}

/// The address of a page of the releases of a repository.
pub open spec fn spec_page_url(repo: Seq<char>, page: nat) -> Seq<char> {
    "https://api.github.com/repos/"@ + repo + "/releases?per_page=100&page="@ + spec_decimal(page)
}

/// The address of a page of the releases of a repository.
pub fn page_url(repo: &str, page: u32) -> (r: String)
    ensures
        r@ == spec_page_url(repo@, page as nat),
{
    let mut s: String = "https://api.github.com/repos/".to_owned();
    s.append(repo);
    s.append("/releases?per_page=100&page=");
    let number = decimal(page);
    s.append(number.as_str());
    s
}

impl ReleasePager {
    pub closed spec fn spec_repo(&self) -> Seq<char> {
        self.repo@
    }

    /// The walk stays within the pages allowed.
    pub closed spec fn wf(&self) -> bool {
        1 <= self.page <= PAGE_CAP + 1
    }

    /// A walk that has yet to ask for the first page.
    pub fn new(repo: &str) -> (r: Self)
        ensures
            r.wf(),
            r.spec_repo() == repo@,
            r@ == (PagerView { page: 1, versions: Seq::empty(), exhausted: false }),
    {
        let r = ReleasePager {
            repo: repo.to_owned(),
            page: 1,
            versions: Vec::new(),
            exhausted: false,
        };
        assert(r.versions.deep_view() =~= Seq::<Seq<char>>::empty());
        r
    }

    /// The page to ask for next, unless the walk has ended.
    pub fn next_page(&self) -> (r: Option<u32>)
        ensures
            r is Some <==> self@.next_page() is Some,
            r matches Some(p) ==> Some(p as int) == self@.next_page(),
    {
        if !self.exhausted && self.page <= PAGE_CAP {
            Some(self.page)
        } else {
            None
        }
    }

    /// The address to ask next, unless the walk has ended.
    pub fn next_url(&self) -> (r: Option<String>)
        ensures
            r is Some <==> self@.next_page() is Some,
            r matches Some(u) ==> u@ == spec_page_url(self.spec_repo(), self@.page as nat),
    {
        match self.next_page() {
            Some(p) => Some(page_url(self.repo.as_str(), p)),
            None => None,
        }
    }

    /// Takes the page that was asked for: its tags, but for those of
    /// pre-releases, are added to what was found, and the walk ends here
    /// where the page holds fewer releases than were asked for.
    pub fn accept(&mut self, page: &Vec<GitHubVersion>)
        requires
            old(self).wf(),
        ensures
            final(self).wf(),
            final(self).spec_repo() == old(self).spec_repo(),
            final(self)@ == old(self)@.accept(page.deep_view()),
    {
        if self.next_page().is_none() {
            return ;
        }
        let mut tags = stable_tags(page);
        let ghost before = self.versions.deep_view();
        let ghost added = tags.deep_view();
        self.versions.append(&mut tags);
        assert(self.versions.deep_view() =~= before + added);
        if page.len() < PAGE_SIZE {
            self.exhausted = true;
        }
        self.page = self.page + 1;
    }

    /// What the walk has found.
    pub fn into_versions(self) -> (r: Vec<String>)
        ensures
            r.deep_view() == self@.versions,
    {
        self.versions
    }
}

/// One step of what is made of a tag once it is found.
#[derive(Debug, PartialEq, Eq)]
pub enum PostProcess {
    /// Take the leading repetitions of a prefix off.
    StripPrefix { prefix: String },
    /// Put a text in place of every occurrence of another.
    Replace { from: String, to: String },
}

/// A step as contracts see it.
pub enum PostProcessView {
    StripPrefix { prefix: Seq<char> },
    Replace { from: Seq<char>, to: Seq<char> },
}

impl DeepView for PostProcess {
    type V = PostProcessView;

    open spec fn deep_view(&self) -> PostProcessView {
        match self {
            PostProcess::StripPrefix { prefix } => PostProcessView::StripPrefix { prefix: prefix@ },
            PostProcess::Replace { from, to } => PostProcessView::Replace { from: from@, to: to@ },
        }
    }
}

/// What one step makes of a tag.
pub open spec fn spec_post_process_step(tag: Seq<char>, step: PostProcessView) -> Seq<char> {
    match step {
        PostProcessView::StripPrefix { prefix } => spec_strip_prefix(tag, prefix),
        PostProcessView::Replace { from, to } => spec_replace(tag, from, to),
    }
}

/// A tag after the first `n` steps, each applied to what the one before it
/// gave.
pub open spec fn spec_post_process(tag: Seq<char>, steps: Seq<PostProcessView>, n: int) -> Seq<
    char,
>
    decreases n,
{
    if n <= 0 {
        tag
    } else {
        spec_post_process_step(spec_post_process(tag, steps, n - 1), steps[n - 1])
    }
}

/// Applies the steps to a tag, one after the other.
pub fn post_process(tag: &str, steps: &Vec<PostProcess>) -> (r: String)
    ensures
        r@ == spec_post_process(tag@, steps.deep_view(), steps.len() as int),
{
    let mut out: String = tag.to_owned();
    let mut i: usize = 0;
    while i < steps.len()
        invariant
            i <= steps.len(),
            out@ == spec_post_process(tag@, steps.deep_view(), i as int),
        decreases steps.len() - i,
    {
        assert(steps.deep_view()[i as int] == steps[i as int].deep_view());
        match &steps[i] {
            PostProcess::StripPrefix { prefix } => {
                out = strip_prefix(out.as_str(), prefix.as_str());
            },
            PostProcess::Replace { from, to } => {
                out = replace(out.as_str(), from.as_str(), to.as_str());
            },
        }
        i += 1;
    }
    out
}

/// Applies the steps to every tag of a list.
pub fn post_process_all(tags: &Vec<String>, steps: &Vec<PostProcess>) -> (r: Vec<String>)
    ensures
        r.deep_view() == tags.deep_view().map_values(
            |tag: Seq<char>| spec_post_process(tag, steps.deep_view(), steps.len() as int),
        ),
{
    let mut out: Vec<String> = Vec::new();
    let mut i: usize = 0;
    while i < tags.len()
        invariant
            i <= tags.len(),
            out.len() == i,
            forall|j: int|
                0 <= j < i ==> (#[trigger] out[j])@ == spec_post_process(
                    tags[j]@,
                    steps.deep_view(),
                    steps.len() as int,
                ),
        decreases tags.len() - i,
    {
        out.push(post_process(tags[i].as_str(), steps));
        i += 1;
    }
    assert(out.deep_view() =~= tags.deep_view().map_values(
        |tag: Seq<char>| spec_post_process(tag, steps.deep_view(), steps.len() as int),
    ));
    out
}

} // verus!
