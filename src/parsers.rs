//! Extraction of an issue's content from its markup, and of the list of
//! issues from the index page.
//!
//! An issue body is a flat run of sibling blocks: headings, paragraphs and
//! lists. Each section is found by a linear scan over the children of the
//! article element, whose state is the last top-level heading seen.

use vstd::prelude::*;

use crate::html::{escape, escaped};
use crate::markup::{
    attr_of, class_pred, first_from, first_named_below, in_subtree, is_child, is_named,
    markup_nodes, named_class_pred, text_of, under_class, Markup, RawNode,
};
use crate::text::{
    i32_value, last_word, last_word_of, lower_of, parse_i32, same_text, trim, trimmed,
};
use crate::types::{
    community_text, core_text, crate_text, head_text, Article, ArticleModel, CoreUpdates,
    link_from_node, link_models, CrateModel, CrateOfWeek, CommunityUpdates, GroupModel, Link,
    LinkModel, LinksList, NamedLinksList,
};

verus! {

/// Why no crate of the week was found.
#[derive(Debug, PartialEq, Eq, Structural)]
pub enum ParseCrateOfWeekError {
    /// No paragraph follows the crate of the week heading.
    ParagraphNotFound,
    /// The paragraph holds no anchor with a target.
    LinkNotFound,
}

/// The article element, or its community updates heading, is missing from
/// the page.
#[derive(Debug, PartialEq, Eq, Structural)]
pub enum ParseCommunityUpdatesError {
    NotFound,
}

/// No non-empty list follows the core project heading.
#[derive(Debug, PartialEq, Eq, Structural)]
pub enum ParseUpdatesError {
    NotFound,
}

/// The page has no date marker.
#[derive(Debug, PartialEq, Eq, Structural)]
pub enum ParseDateError {
    TimeNotFound,
}

/// The title of the crate of the week section.
pub open spec fn crate_title() -> Seq<char> {
    "Crate of the Week"@
}

/// The title of the community updates section.
pub open spec fn community_title() -> Seq<char> {
    "Updates from Rust Community"@
}

/// The title of the core project section.
pub open spec fn core_title() -> Seq<char> {
    "Updates from the Rust Project"@
}

/// Whether the trimmed text of node `j` is `title`.
pub open spec fn titled(s: Seq<RawNode>, j: int, title: Seq<char>) -> bool {
    trimmed(text_of(s, j)) == title
}

fn heading_is(doc: &Markup, j: usize, title: &str) -> (r: bool)
    ensures
        r == titled(doc@, j as int, title@),
{
    same_text(trim(doc.text(j).as_str()).as_str(), title)
}

/// The links of list `u` gathered from the nodes before `k`: one for each
/// list item below `u` that gives one, in document order.
pub open spec fn list_links_upto(s: Seq<RawNode>, u: int, k: int) -> Seq<LinkModel>
    decreases k - u,
{
    if k <= u + 1 {
        Seq::empty()
    } else {
        let prev = list_links_upto(s, u, k - 1);
        if in_subtree(s, k - 1, u) && is_named(s, k - 1, "li"@) {
            match link_from_node(s, k - 1) {
                Ok(l) => prev.push(l),
                Err(_) => prev,
            }
        } else {
            prev
        }
    }
}

/// The links of list `u`; items that give none are left out.
pub open spec fn list_links(s: Seq<RawNode>, u: int) -> Seq<LinkModel> {
    list_links_upto(s, u, s.len() as int)
}

/// The links of the list `node` of `doc`.
pub fn links_from_html_list(doc: &Markup, node: usize) -> (r: Vec<Link>)
    ensures
        link_models(r@) == list_links(doc@, node as int),
{
    let n = doc.len();
    let mut r: Vec<Link> = Vec::new();
    if node >= n {
        return r;
    }
    let mut k = node + 1;
    while k < n
        invariant
            node < k <= n == doc@.len(),
            link_models(r@) == list_links_upto(doc@, node as int, k as int),
        decreases n - k,
    {
        if doc.is_within(k, node) && doc.is_named(k, "li") {
            match Link::from_node(doc, k) {
                Ok(l) => {
                    let ghost before = r@;
                    r.push(l);
                    assert(link_models(r@) =~= link_models(before).push(l@));
                },
                Err(_) => {},
            }
        }
        k = k + 1;
    }
    r
}

/// Where the scan for the crate of the week stands.
pub enum CrateScan {
    /// Still looking; whether the last top-level heading was its title.
    Seeking(bool),
    /// The paragraph at this index is the one.
    Found(int),
}

pub open spec fn crate_step(s: Seq<RawNode>, a: int, st: CrateScan, j: int) -> CrateScan {
    match st {
        CrateScan::Found(p) => CrateScan::Found(p),
        CrateScan::Seeking(in_section) => if !is_child(s, j, a) {
            st
        } else if is_named(s, j, "h2"@) {
            CrateScan::Seeking(titled(s, j, crate_title()))
        } else if in_section && is_named(s, j, "p"@) {
            CrateScan::Found(j)
        } else {
            st
        },
    }
}

/// The scan over the children of article `a` that come before `k`.
pub open spec fn crate_scan(s: Seq<RawNode>, a: int, k: int) -> CrateScan
    decreases k - a,
{
    if k <= a + 1 {
        CrateScan::Seeking(false)
    } else {
        crate_step(s, a, crate_scan(s, a, k - 1), k - 1)
    }
}

/// The crate of the week that paragraph `p` describes: the first anchor
/// gives name and link, the whole paragraph the description.
pub open spec fn crate_from_paragraph(s: Seq<RawNode>, p: int) -> Result<
    CrateModel,
    ParseCrateOfWeekError,
> {
    match first_named_below(s, p, "a"@) {
        None => Err(ParseCrateOfWeekError::LinkNotFound),
        Some(x) => match attr_of(s, x, "href"@) {
            None => Err(ParseCrateOfWeekError::LinkNotFound),
            Some(h) => Ok(
                CrateModel {
                    name: escaped(text_of(s, x)),
                    text: escaped(text_of(s, p)),
                    link: escaped(h),
                },
            ),
        },
    }
}

/// The crate of the week of article `a`: the first paragraph after its
/// heading.
pub open spec fn crate_of_week_in(s: Seq<RawNode>, a: int) -> Result<
    CrateModel,
    ParseCrateOfWeekError,
> {
    match crate_scan(s, a, s.len() as int) {
        CrateScan::Found(p) => crate_from_paragraph(s, p),
        CrateScan::Seeking(_) => Err(ParseCrateOfWeekError::ParagraphNotFound),
    }
}

/// The model of a crate of the week result.
pub open spec fn crate_result(r: Result<CrateOfWeek, ParseCrateOfWeekError>) -> Result<
    CrateModel,
    ParseCrateOfWeekError,
> {
    match r {
        Ok(c) => Ok(c@),
        Err(e) => Err(e),
    }
}

fn crate_from_paragraph_exec(doc: &Markup, p: usize) -> (r: Result<
    CrateOfWeek,
    ParseCrateOfWeekError,
>)
    requires
        p < doc@.len(),
    ensures
        crate_result(r) == crate_from_paragraph(doc@, p as int),
{
    let anchor = match doc.first_named_below(p, "a") {
        Some(x) => x,
        None => {
            return Err(ParseCrateOfWeekError::LinkNotFound);
        },
    };
    match doc.attr(anchor, "href") {
        Some(h) => Ok(
            CrateOfWeek {
                name: escape(doc.text(anchor)),
                text: escape(doc.text(p)),
                link: escape(h),
            },
        ),
        None => Err(ParseCrateOfWeekError::LinkNotFound),
    }
}

/// The crate of the week of the article element `article` of `doc`.
pub fn parse_crate_of_week(doc: &Markup, article: usize) -> (r: Result<
    CrateOfWeek,
    ParseCrateOfWeekError,
>)
    ensures
        crate_result(r) == crate_of_week_in(doc@, article as int),
{
    let n = doc.len();
    let mut k = if article < n {
        article + 1
    } else {
        n
    };
    let mut in_section = false;
    let mut found: Option<usize> = None;
    while k < n
        invariant
            k <= n == doc@.len(),
            article < k || k == n,
            found matches Some(p) ==> p < n,
            crate_scan(doc@, article as int, k as int) == match found {
                Some(p) => CrateScan::Found(p as int),
                None => CrateScan::Seeking(in_section),
            },
        decreases n - k,
    {
        if found.is_none() && doc.is_child(k, article) {
            if doc.is_named(k, "h2") {
                in_section = heading_is(doc, k, "Crate of the Week");
            } else if in_section && doc.is_named(k, "p") {
                found = Some(k);
            }
        }
        k = k + 1;
    }
    match found {
        Some(p) => crate_from_paragraph_exec(doc, p),
        None => Err(ParseCrateOfWeekError::ParagraphNotFound),
    }
}

/// Where the scan for community updates stands.
pub struct CommunityScan {
    /// Whether the last top-level heading was the community title.
    pub in_section: bool,
    /// The escaped title of the last subsection not yet given a list.
    pub category: Seq<char>,
    /// The groups found so far.
    pub groups: Seq<GroupModel>,
}

pub open spec fn community_step(s: Seq<RawNode>, a: int, st: CommunityScan, j: int) -> CommunityScan {
    if !is_child(s, j, a) {
        st
    } else if is_named(s, j, "h2"@) {
        CommunityScan {
            in_section: titled(s, j, community_title()),
            category: Seq::empty(),
            groups: st.groups,
        }
    } else if st.in_section && is_named(s, j, "h3"@) {
        CommunityScan { category: escaped(trimmed(text_of(s, j))), ..st }
    } else if st.in_section && st.category.len() > 0 && is_named(s, j, "ul"@) {
        let links = list_links(s, j);
        CommunityScan {
            in_section: true,
            category: Seq::empty(),
            groups: if links.len() > 0 {
                st.groups.push(GroupModel { name: st.category, links })
            } else {
                st.groups
            },
        }
    } else {
        st
    }
}

/// The scan over the children of article `a` that come before `k`.
pub open spec fn community_scan(s: Seq<RawNode>, a: int, k: int) -> CommunityScan
    decreases k - a,
{
    if k <= a + 1 {
        CommunityScan { in_section: false, category: Seq::empty(), groups: Seq::empty() }
    } else {
        community_step(s, a, community_scan(s, a, k - 1), k - 1)
    }
}

/// The groups of the community updates of article `a`: each subsection
/// title with the links of the first list after it, subsections without
/// links left out.
pub open spec fn community_groups_in(s: Seq<RawNode>, a: int) -> Seq<GroupModel> {
    community_scan(s, a, s.len() as int).groups
}

/// Whether node `j` is a top-level heading of article `a` titled as the
/// community updates section.
pub open spec fn is_community_heading(s: Seq<RawNode>, a: int, j: int) -> bool {
    is_child(s, j, a) && is_named(s, j, "h2"@) && titled(s, j, community_title())
}

/// Whether article `a` has a community updates heading among the nodes
/// after it and before `k`.
pub open spec fn community_heading_before(s: Seq<RawNode>, a: int, k: int) -> bool {
    exists|j: int| a < j < k && #[trigger] is_community_heading(s, a, j)
}

/// The community updates of article `a`, or `NotFound` when the article has
/// no community updates heading.
pub open spec fn community_in(s: Seq<RawNode>, a: int) -> Result<
    Seq<GroupModel>,
    ParseCommunityUpdatesError,
> {
    if community_heading_before(s, a, s.len() as int) {
        Ok(community_groups_in(s, a))
    } else {
        Err(ParseCommunityUpdatesError::NotFound)
    }
}

/// The model of a community updates result.
pub open spec fn community_result(r: Result<CommunityUpdates, ParseCommunityUpdatesError>) -> Result<
    Seq<GroupModel>,
    ParseCommunityUpdatesError,
> {
    match r {
        Ok(c) => Ok(c@),
        Err(e) => Err(e),
    }
}

/// The community updates of the article element `article` of `doc`.
pub fn parse_community_updates(doc: &Markup, article: usize) -> (r: Result<
    CommunityUpdates,
    ParseCommunityUpdatesError,
>)
    ensures
        community_result(r) == community_in(doc@, article as int),
{
    let n = doc.len();
    let mut k = if article < n {
        article + 1
    } else {
        n
    };
    let mut in_section = false;
    let mut category = String::new();
    let mut updates: Vec<NamedLinksList> = Vec::new();
    let mut seen = false;
    assert(crate::types::group_models(updates@) =~= Seq::<GroupModel>::empty());
    while k < n
        invariant
            k <= n == doc@.len(),
            article < k || k == n,
            seen == community_heading_before(doc@, article as int, k as int),
            community_scan(doc@, article as int, k as int) == (CommunityScan {
                in_section,
                category: category@,
                groups: crate::types::group_models(updates@),
            }),
        decreases n - k,
    {
        let ghost before_seen = seen;
        if doc.is_child(k, article) {
            if doc.is_named(k, "h2") {
                in_section = heading_is(doc, k, "Updates from Rust Community");
                category = String::new();
                if in_section {
                    seen = true;
                }
            } else if in_section && doc.is_named(k, "h3") {
                category = escape(trim(doc.text(k).as_str()));
            } else if in_section && !category.as_str().is_empty() && doc.is_named(k, "ul") {
                let links = links_from_html_list(doc, k);
                if links.len() > 0 {
                    let ghost before = updates@;
                    let name = category;
                    updates.push(NamedLinksList { name, links: LinksList::new(links) });
                    assert(crate::types::group_models(updates@) =~= crate::types::group_models(
                        before,
                    ).push(GroupModel { name: name@, links: link_models(links@) }));
                }
                category = String::new();
            }
        }
        proof {
            if seen {
                if before_seen {
                    let j = choose|j: int|
                        article < j < k && #[trigger] is_community_heading(doc@, article as int, j);
                    assert(article < j < k + 1 && is_community_heading(doc@, article as int, j));
                } else {
                    assert(is_community_heading(doc@, article as int, k as int));
                }
            } else {
                assert(!is_community_heading(doc@, article as int, k as int));
            }
        }
        k = k + 1;
    }
    if !seen {
        return Err(ParseCommunityUpdatesError::NotFound);
    }
    Ok(CommunityUpdates { updates })
}

/// Where the scan for core updates stands.
pub enum CoreScan {
    /// Still looking; whether the last top-level heading was its title.
    Seeking(bool),
    /// The list at this index is the one.
    Found(int),
}

pub open spec fn core_step(s: Seq<RawNode>, a: int, st: CoreScan, j: int) -> CoreScan {
    match st {
        CoreScan::Found(u) => CoreScan::Found(u),
        CoreScan::Seeking(in_section) => if !is_child(s, j, a) {
            st
        } else if is_named(s, j, "h2"@) {
            CoreScan::Seeking(titled(s, j, core_title()))
        } else if in_section && is_named(s, j, "ul"@) && list_links(s, j).len() > 0 {
            CoreScan::Found(j)
        } else {
            st
        },
    }
}

/// The scan over the children of article `a` that come before `k`.
pub open spec fn core_scan(s: Seq<RawNode>, a: int, k: int) -> CoreScan
    decreases k - a,
{
    if k <= a + 1 {
        CoreScan::Seeking(false)
    } else {
        core_step(s, a, core_scan(s, a, k - 1), k - 1)
    }
}

/// The core updates of article `a`: the links of the first non-empty list
/// after its heading.
pub open spec fn core_in(s: Seq<RawNode>, a: int) -> Result<Seq<LinkModel>, ParseUpdatesError> {
    match core_scan(s, a, s.len() as int) {
        CoreScan::Found(u) => Ok(list_links(s, u)),
        CoreScan::Seeking(_) => Err(ParseUpdatesError::NotFound),
    }
}

/// The model of a core updates result.
pub open spec fn links_result(r: Result<Vec<Link>, ParseUpdatesError>) -> Result<
    Seq<LinkModel>,
    ParseUpdatesError,
> {
    match r {
        Ok(v) => Ok(link_models(v@)),
        Err(e) => Err(e),
    }
}

/// The core updates of the article element `article` of `doc`.
pub fn parse_updates_from_core(doc: &Markup, article: usize) -> (r: Result<
    Vec<Link>,
    ParseUpdatesError,
>)
    ensures
        links_result(r) == core_in(doc@, article as int),
{
    let n = doc.len();
    let mut k = if article < n {
        article + 1
    } else {
        n
    };
    let mut in_section = false;
    let mut found: Option<usize> = None;
    let mut links: Vec<Link> = Vec::new();
    while k < n
        invariant
            k <= n == doc@.len(),
            article < k || k == n,
            found matches Some(u) ==> link_models(links@) == list_links(doc@, u as int),
            core_scan(doc@, article as int, k as int) == match found {
                Some(u) => CoreScan::Found(u as int),
                None => CoreScan::Seeking(in_section),
            },
        decreases n - k,
    {
        if found.is_none() && doc.is_child(k, article) {
            if doc.is_named(k, "h2") {
                in_section = heading_is(doc, k, "Updates from the Rust Project");
            } else if in_section && doc.is_named(k, "ul") {
                let list = links_from_html_list(doc, k);
                if list.len() > 0 {
                    found = Some(k);
                    links = list;
                }
            }
        }
        k = k + 1;
    }
    match found {
        Some(_) => Ok(links),
        None => Err(ParseUpdatesError::NotFound),
    }
}

/// The published date of the page: the trimmed, escaped text of its first
/// date marker.
pub open spec fn date_in(s: Seq<RawNode>) -> Result<Seq<char>, ParseDateError> {
    match first_from(0, s.len() as int, class_pred(s, "time-prefix"@)) {
        Some(j) => Ok(escaped(trimmed(text_of(s, j)))),
        None => Err(ParseDateError::TimeNotFound),
    }
}

/// The published date of `doc`.
pub fn parse_article_date(doc: &Markup) -> (r: Result<String, ParseDateError>)
    ensures
        match r {
            Ok(d) => date_in(doc@) == Ok::<Seq<char>, ParseDateError>(d@),
            Err(e) => date_in(doc@) == Err::<Seq<char>, ParseDateError>(e),
        },
{
    match doc.first_with_class("time-prefix") {
        Some(j) => Ok(escape(trim(doc.text(j).as_str()))),
        None => Err(ParseDateError::TimeNotFound),
    }
}

/// Why an issue page could not be extracted.
#[derive(Debug, PartialEq, Eq, Structural)]
pub enum ArticleError {
    Structure(ParseCommunityUpdatesError),
    Date(ParseDateError),
    CrateOfWeek(ParseCrateOfWeekError),
    Core(ParseUpdatesError),
}

/// The issue `id` at `link` extracted from the document `s`. The checks
/// come in this order: the article element, the date, the community updates
/// heading, the crate of the week, the core updates.
pub open spec fn article_in(s: Seq<RawNode>, link: Seq<char>, id: int) -> Result<
    ArticleModel,
    ArticleError,
> {
    match first_from(0, s.len() as int, named_class_pred(s, "article"@, "post-content"@)) {
        None => Err(ArticleError::Structure(ParseCommunityUpdatesError::NotFound)),
        Some(a) => match date_in(s) {
            Err(e) => Err(ArticleError::Date(e)),
            Ok(date) => match community_in(s, a) {
                Err(e) => Err(ArticleError::Structure(e)),
                Ok(community) => match crate_of_week_in(s, a) {
                    Err(e) => Err(ArticleError::CrateOfWeek(e)),
                    Ok(c) => match core_in(s, a) {
                        Err(e) => Err(ArticleError::Core(e)),
                        Ok(core) => Ok(
                            ArticleModel { id, date, link, community, crate_of_week: c, core },
                        ),
                    },
                },
            },
        },
    }
}

/// The model of an article result.
pub open spec fn article_result(r: Result<Article, ArticleError>) -> Result<ArticleModel, ArticleError> {
    match r {
        Ok(a) => Ok(a@),
        Err(e) => Err(e),
    }
}

/// Extracts issue `id`, found at `link`, from its parsed page `doc`.
pub fn parse_article_markup(doc: &Markup, link: &str, id: i32) -> (r: Result<Article, ArticleError>)
    ensures
        article_result(r) == article_in(doc@, link@, id as int),
{
    let article = match doc.first_named_with_class("article", "post-content") {
        Some(a) => a,
        None => {
            return Err(ArticleError::Structure(ParseCommunityUpdatesError::NotFound));
        },
    };
    let date = match parse_article_date(doc) {
        Ok(d) => d,
        Err(e) => {
            return Err(ArticleError::Date(e));
        },
    };
    let community = match parse_community_updates(doc, article) {
        Ok(c) => c,
        Err(e) => {
            return Err(ArticleError::Structure(e));
        },
    };
    let crate_of_week = match parse_crate_of_week(doc, article) {
        Ok(c) => c,
        Err(e) => {
            return Err(ArticleError::CrateOfWeek(e));
        },
    };
    let core = match parse_updates_from_core(doc, article) {
        Ok(v) => CoreUpdates::new(v),
        Err(e) => {
            return Err(ArticleError::Core(e));
        },
    };
    Ok(Article { id, date, link: String::from_str(link), community, crate_of_week, core })
}

/// Extracts issue `id`, found at `link`, from the markup `html` of its page.
pub fn parse_article(html: &str, link: &str, id: i32) -> (r: Result<Article, ArticleError>)
    ensures
        article_result(r) == article_in(markup_nodes(html@), link@, id as int),
{
    let doc = Markup::parse(html);
    parse_article_markup(&doc, link, id)
}

/// Why the index page could not be read.
#[derive(Debug, PartialEq, Eq, Structural)]
pub enum ParseHomeError {
    /// The last word of an issue title is not a number.
    NoLastOfSplit,
    /// An issue anchor has no target.
    NoHref,
}

/// One issue listed on the index page.
#[derive(Debug, PartialEq, Eq)]
pub struct IssueRef {
    pub id: i32,
    pub url: String,
}

/// What an `IssueRef` holds.
pub struct IssueModel {
    pub id: int,
    pub url: Seq<char>,
}

impl View for IssueRef {
    type V = IssueModel;

    open spec fn view(&self) -> IssueModel {
        IssueModel { id: self.id as int, url: self.url@ }
    }
}

/// The models of `v`'s issues.
pub open spec fn issue_models(v: Seq<IssueRef>) -> Seq<IssueModel> {
    v.map_values(|r: IssueRef| r@)
}

/// Whether node `j` is an anchor under a post title.
pub open spec fn is_issue_anchor(s: Seq<RawNode>, j: int) -> bool {
    is_named(s, j, "a"@) && under_class(s, j, "post-title"@)
}

/// The issue that anchor `j` lists: the number that ends its text and its
/// target.
pub open spec fn issue_entry(s: Seq<RawNode>, j: int) -> Result<IssueModel, ParseHomeError> {
    match i32_value(last_word_of(text_of(s, j))) {
        None => Err(ParseHomeError::NoLastOfSplit),
        Some(id) => match attr_of(s, j, "href"@) {
            None => Err(ParseHomeError::NoHref),
            Some(h) => Ok(IssueModel { id: id as int, url: h }),
        },
    }
}

/// The issues listed by the nodes before `k`, in page order, or the first
/// error among them.
pub open spec fn issues_upto(s: Seq<RawNode>, k: int) -> Result<Seq<IssueModel>, ParseHomeError>
    decreases k,
{
    if k <= 0 {
        Ok(Seq::empty())
    } else {
        match issues_upto(s, k - 1) {
            Err(e) => Err(e),
            Ok(v) => if is_issue_anchor(s, k - 1) {
                match issue_entry(s, k - 1) {
                    Err(e) => Err(e),
                    Ok(x) => Ok(v.push(x)),
                }
            } else {
                Ok(v)
            },
        }
    }
}

/// Issues newer than the watermark `w`.
pub open spec fn newer_than(w: int) -> spec_fn(IssueModel) -> bool {
    |x: IssueModel| x.id > w
}

/// The issues of the index page `s` newer than `w`, in page order.
pub open spec fn home_page(s: Seq<RawNode>, w: int) -> Result<Seq<IssueModel>, ParseHomeError> {
    match issues_upto(s, s.len() as int) {
        Err(e) => Err(e),
        Ok(v) => Ok(v.filter(newer_than(w))),
    }
}

/// The model of an index page result.
pub open spec fn home_result(r: Result<Vec<IssueRef>, ParseHomeError>) -> Result<
    Seq<IssueModel>,
    ParseHomeError,
> {
    match r {
        Ok(v) => Ok(issue_models(v@)),
        Err(e) => Err(e),
    }
}

proof fn lemma_issues_error_stays(s: Seq<RawNode>, k: int, m: int)
    requires
        0 <= k <= m,
        issues_upto(s, k) is Err,
    ensures
        issues_upto(s, m) == issues_upto(s, k),
    decreases m - k,
{
    if m > k {
        lemma_issues_error_stays(s, k, m - 1);
    }
}

/// The issues listed on the index page `doc` whose number is above
/// `last_id`, in page order (newest first).
pub fn parse_home_page(doc: &Markup, last_id: i32) -> (r: Result<Vec<IssueRef>, ParseHomeError>)
    ensures
        home_result(r) == home_page(doc@, last_id as int),
{
    let n = doc.len();
    let mut r: Vec<IssueRef> = Vec::new();
    let ghost mut all: Seq<IssueModel> = Seq::empty();
    let mut k: usize = 0;
    proof {
        reveal(Seq::filter);
    }
    assert(issue_models(r@) =~= all.filter(newer_than(last_id as int)));
    while k < n
        invariant
            k <= n == doc@.len(),
            issues_upto(doc@, k as int) == Ok::<Seq<IssueModel>, ParseHomeError>(all),
            issue_models(r@) == all.filter(newer_than(last_id as int)),
        decreases n - k,
    {
        if doc.is_named(k, "a") && doc.is_under_class(k, "post-title") {
            let id = match parse_i32(last_word(doc.text(k).as_str()).as_str()) {
                Some(id) => id,
                None => {
                    proof {
                        lemma_issues_error_stays(doc@, k + 1, n as int);
                    }
                    return Err(ParseHomeError::NoLastOfSplit);
                },
            };
            let url = match doc.attr(k, "href") {
                Some(h) => h,
                None => {
                    proof {
                        lemma_issues_error_stays(doc@, k + 1, n as int);
                    }
                    return Err(ParseHomeError::NoHref);
                },
            };
            let entry = IssueRef { id, url };
            proof {
                reveal(Seq::filter);
                assert(all.push(entry@).drop_last() =~= all);
            }
            if id > last_id {
                let ghost before = r@;
                r.push(entry);
                assert(issue_models(r@) =~= issue_models(before).push(entry@));
            }
            proof {
                all = all.push(entry@);
            }
        }
        k = k + 1;
    }
    Ok(r)
}

/// Extraction is a function of the page: the same markup gives the same
/// issue, and so the same four text blocks.
pub proof fn lemma_extraction_deterministic(
    html1: Seq<char>,
    html2: Seq<char>,
    link: Seq<char>,
    id: int,
)
    requires
        html1 == html2,
    ensures
        article_in(markup_nodes(html1), link, id) == article_in(markup_nodes(html2), link, id),
        article_in(markup_nodes(html1), link, id) matches Ok(a) ==> {
            let b = article_in(markup_nodes(html2), link, id)->Ok_0;
            &&& head_text(a.id, lower_of(a.date), a.link) == head_text(
                b.id,
                lower_of(b.date),
                b.link,
            )
            &&& community_text(a.community) == community_text(b.community)
            &&& crate_text(a.crate_of_week) == crate_text(b.crate_of_week)
            &&& core_text(a.core) == core_text(b.core)
        },
{
}

/// The index scan keeps exactly the listed issues whose number is above the
/// watermark.
pub proof fn lemma_home_page_keeps_newer(s: Seq<RawNode>, w: int)
    requires
        issues_upto(s, s.len() as int) is Ok,
    ensures
        home_page(s, w) is Ok,
        forall|e: IssueModel|
            #[trigger] home_page(s, w)->Ok_0.contains(e) <==> (issues_upto(
                s,
                s.len() as int,
            )->Ok_0.contains(e) && e.id > w),
{
    let all = issues_upto(s, s.len() as int)->Ok_0;
    let p = newer_than(w);
    let out = all.filter(p);
    assert forall|e: IssueModel| out.contains(e) <==> (all.contains(e) && e.id > w) by {
        if out.contains(e) {
            all.lemma_filter_contains_rev(p, e);
            let i = choose|i: int| 0 <= i < out.len() && out[i] == e;
            all.lemma_filter_pred(p, i);
        }
        if all.contains(e) && e.id > w {
            let i = choose|i: int| 0 <= i < all.len() && all[i] == e;
            all.lemma_filter_contains(p, i);
        }
    }
}

/// The crate of the week fails with `LinkNotFound` when its paragraph holds
/// no anchor, and with `ParagraphNotFound` when no paragraph follows its
/// heading (or there is no heading).
pub proof fn lemma_crate_of_week_errors(s: Seq<RawNode>, a: int)
    ensures
        crate_scan(s, a, s.len() as int) matches CrateScan::Found(p) && first_named_below(
            s,
            p,
            "a"@,
        ) is None ==> crate_of_week_in(s, a) == Err::<CrateModel, ParseCrateOfWeekError>(
            ParseCrateOfWeekError::LinkNotFound,
        ),
        crate_scan(s, a, s.len() as int) is Seeking ==> crate_of_week_in(s, a) == Err::<
            CrateModel,
            ParseCrateOfWeekError,
        >(ParseCrateOfWeekError::ParagraphNotFound),
{
}

proof fn lemma_community_scan_nonempty(s: Seq<RawNode>, a: int, k: int)
    ensures
        forall|i: int|
            0 <= i < community_scan(s, a, k).groups.len() ==> (#[trigger] community_scan(
                s,
                a,
                k,
            ).groups[i]).links.len() > 0,
    decreases k - a,
{
    if k > a + 1 {
        lemma_community_scan_nonempty(s, a, k - 1);
        let prev = community_scan(s, a, k - 1);
        let cur = community_scan(s, a, k);
        assert(cur == community_step(s, a, prev, k - 1));
        assert forall|i: int| 0 <= i < cur.groups.len() implies (#[trigger] cur.groups[i]).links.len()
            > 0 by {
            if i < prev.groups.len() {
                assert(prev.groups[i].links.len() > 0);
            }
        }
    }
}

/// Community updates never hold a subsection without links: a subsection
/// whose list is missing or gives no link is left out.
pub proof fn lemma_community_groups_nonempty(s: Seq<RawNode>, a: int)
    ensures
        forall|i: int|
            0 <= i < community_groups_in(s, a).len() ==> (#[trigger] community_groups_in(
                s,
                a,
            )[i]).links.len() > 0,
{
    lemma_community_scan_nonempty(s, a, s.len() as int);
}

/// Whether node `h` is a crate of the week heading of article `a` with no
/// top-level heading of `a` after it and before `k`.
pub open spec fn crate_heading_open(s: Seq<RawNode>, a: int, h: int, k: int) -> bool {
    &&& a < h < k
    &&& is_child(s, h, a)
    &&& is_named(s, h, "h2"@)
    &&& titled(s, h, crate_title())
    &&& forall|m: int| h < m < k ==> !(is_child(s, m, a) && #[trigger] is_named(s, m, "h2"@))
}

/// Whether no paragraph of article `a` follows a crate of the week heading
/// before the next top-level heading.
pub open spec fn no_crate_paragraph(s: Seq<RawNode>, a: int) -> bool {
    forall|h: int, j: int|
        #[trigger] crate_heading_open(s, a, h, j) && is_child(s, j, a) ==> !#[trigger] is_named(
            s,
            j,
            "p"@,
        )
}

proof fn lemma_crate_scan_seeking(s: Seq<RawNode>, a: int, k: int)
    requires
        no_crate_paragraph(s, a),
    ensures
        crate_scan(s, a, k) is Seeking,
        crate_scan(s, a, k)->Seeking_0 ==> exists|h: int| #[trigger] crate_heading_open(s, a, h, k),
    decreases k - a,
{
    if k > a + 1 {
        let j = k - 1;
        lemma_crate_scan_seeking(s, a, j);
        let prev = crate_scan(s, a, j);
        let open = prev->Seeking_0;
        if open && is_child(s, j, a) && !is_named(s, j, "h2"@) {
            let h = choose|h: int| #[trigger] crate_heading_open(s, a, h, j);
            assert(!is_named(s, j, "p"@));
            assert(crate_heading_open(s, a, h, k));
        } else if open && !is_child(s, j, a) {
            let h = choose|h: int| #[trigger] crate_heading_open(s, a, h, j);
            assert(crate_heading_open(s, a, h, k));
        } else if is_child(s, j, a) && is_named(s, j, "h2"@) && titled(s, j, crate_title()) {
            assert(crate_heading_open(s, a, j, k));
        }
    }
}

/// When no paragraph of the article follows a crate of the week heading
/// before the next top-level heading (in particular when there is no such
/// heading), the crate of the week fails with `ParagraphNotFound`.
pub proof fn lemma_crate_without_paragraph(s: Seq<RawNode>, a: int)
    requires
        no_crate_paragraph(s, a),
    ensures
        crate_of_week_in(s, a) == Err::<CrateModel, ParseCrateOfWeekError>(
            ParseCrateOfWeekError::ParagraphNotFound,
        ),
{
    lemma_crate_scan_seeking(s, a, s.len() as int);
}

/// The community updates fail with `NotFound` exactly when the article has
/// no top-level heading titled as the community updates section.
pub proof fn lemma_community_needs_heading(s: Seq<RawNode>, a: int)
    ensures
        community_in(s, a) is Err <==> !(exists|j: int|
            a < j < s.len() && is_child(s, j, a) && is_named(s, j, "h2"@) && #[trigger] titled(
                s,
                j,
                community_title(),
            )),
{
    if community_in(s, a) is Ok {
        let j = choose|j: int| a < j < s.len() && #[trigger] is_community_heading(s, a, j);
        assert(titled(s, j, community_title()));
    } else {
        assert forall|j: int| a < j < s.len() && is_child(s, j, a) && is_named(s, j, "h2"@)
            implies !#[trigger] titled(s, j, community_title()) by {
            if titled(s, j, community_title()) {
                assert(is_community_heading(s, a, j));
            }
        }
    }
}

} // verus!
