//! The model of one issue and its rendering into delivery text.

use vstd::prelude::*;

use crate::html::{escape, escaped};
use crate::markup::{attr_of, first_from, first_named_below, text_of, Markup, RawNode};
use crate::text::{
    chars_of, decimal, decimal_of, ends_with, is_prefix, is_suffix, lower_of, lowercase,
    same_chars, starts_with, string_of, strip_suffix, sub_chars, without_suffix,
};

verus! {

/// Positions of `/` in `t`.
pub open spec fn slash_pred(t: Seq<char>) -> spec_fn(int) -> bool {
    |i: int| t[i] == '/'
}

/// What comes before the first `/` of `t`, or all of `t`.
pub open spec fn before_slash(t: Seq<char>) -> Seq<char> {
    match first_from(0, t.len() as int, slash_pred(t)) {
        Some(k) => t.take(k),
        None => t,
    }
}

/// What comes after the first `/` of `t`, or nothing.
pub open spec fn after_slash(t: Seq<char>) -> Seq<char> {
    match first_from(0, t.len() as int, slash_pred(t)) {
        Some(k) => t.skip(k + 1),
        None => Seq::empty(),
    }
}

/// `u` without a leading `https://` or `http://`.
pub open spec fn without_scheme(u: Seq<char>) -> Seq<char> {
    if is_prefix("https://"@, u) {
        u.skip("https://"@.len() as int)
    } else if is_prefix("http://"@, u) {
        u.skip("http://"@.len() as int)
    } else {
        u
    }
}

/// `t` without a trailing `.html` or `.htm`.
pub open spec fn without_page_suffix(t: Seq<char>) -> Seq<char> {
    if is_suffix(".html"@, t) {
        t.take(t.len() - ".html"@.len())
    } else if is_suffix(".htm"@, t) {
        t.take(t.len() - ".htm"@.len())
    } else {
        t
    }
}

/// The short display label of a url. On `github.com` it is the path; on
/// `medium.com` the host and the first path segment; elsewhere the bare host,
/// found after dropping the scheme and a trailing page suffix.
pub open spec fn label_of(u: Seq<char>) -> Seq<char> {
    let rest = without_scheme(u);
    let host = before_slash(rest);
    let path = after_slash(rest);
    if host == "github.com"@ {
        path
    } else if host == "medium.com"@ {
        let segment = before_slash(path);
        if segment.len() == 0 {
            "medium.com"@
        } else {
            "medium.com/"@ + segment
        }
    } else {
        before_slash(without_page_suffix(rest))
    }
}

/// Splits `t` at its first `/`, which belongs to neither part.
fn split_at_slash(t: &Vec<char>) -> (r: (Vec<char>, Vec<char>))
    ensures
        r.0@ == before_slash(t@),
        r.1@ == after_slash(t@),
{
    let n = t.len();
    let mut k: usize = 0;
    while k < n
        invariant
            k <= n == t.len(),
            first_from(0, n as int, slash_pred(t@)) == first_from(k as int, n as int, slash_pred(t@)),
        decreases n - k,
    {
        if t[k] == '/' {
            return (sub_chars(t, 0, k), sub_chars(t, k + 1, n));
        }
        k = k + 1;
    }
    assert(t@.subrange(0, n as int) =~= t@);
    (sub_chars(t, 0, n), Vec::new())
}

fn drop_scheme(u: &Vec<char>) -> (r: Vec<char>)
    ensures
        r@ == without_scheme(u@),
{
    let https = chars_of("https://");
    let http = chars_of("http://");
    if starts_with(u, &https) {
        sub_chars(u, https.len(), u.len())
    } else if starts_with(u, &http) {
        sub_chars(u, http.len(), u.len())
    } else {
        sub_chars(u, 0, u.len())
    }
}

fn drop_page_suffix(t: &Vec<char>) -> (r: Vec<char>)
    ensures
        r@ == without_page_suffix(t@),
{
    let html = chars_of(".html");
    let htm = chars_of(".htm");
    if ends_with(t, &html) {
        sub_chars(t, 0, t.len() - html.len())
    } else if ends_with(t, &htm) {
        sub_chars(t, 0, t.len() - htm.len())
    } else {
        sub_chars(t, 0, t.len())
    }
}

/// The short display label of the url `link`.
pub fn short_label(link: &str) -> (r: String)
    ensures
        r@ == label_of(link@),
{
    let u = chars_of(link);
    let rest = drop_scheme(&u);
    let (host, path) = split_at_slash(&rest);
    if same_chars(&host, &chars_of("github.com")) {
        string_of(&path, 0, path.len())
    } else if same_chars(&host, &chars_of("medium.com")) {
        let (segment, _) = split_at_slash(&path);
        if segment.len() == 0 {
            String::from_str("medium.com")
        } else {
            let mut r = String::from_str("medium.com/");
            let tail = string_of(&segment, 0, segment.len());
            r.append(tail.as_str());
            r
        }
    } else {
        let page = drop_page_suffix(&rest);
        let (bare, _) = split_at_slash(&page);
        string_of(&bare, 0, bare.len())
    }
}

/// A link of a list: its target and its text, both escaped when it was made.
#[derive(Debug)]
pub struct Link {
    link: String,
    text: String,
}

/// What a `Link` holds.
pub struct LinkModel {
    pub link: Seq<char>,
    pub text: Seq<char>,
}

/// Why a list item gives no link.
#[derive(Debug, PartialEq, Eq, Structural)]
pub enum LinkFromNodeError {
    /// The item holds no anchor.
    NextNotFound,
    /// Its first anchor has no `href`.
    HrefNotFound,
}

/// The annotation that the site appends to list items.
pub open spec fn discuss_marker() -> Seq<char> {
    ". [discuss]"@
}

/// The link that list item `i` gives: its text without the discussion
/// annotation that may end it, and the `href` of its first anchor.
pub open spec fn link_from_node(s: Seq<RawNode>, i: int) -> Result<LinkModel, LinkFromNodeError> {
    match first_named_below(s, i, "a"@) {
        None => Err(LinkFromNodeError::NextNotFound),
        Some(a) => match attr_of(s, a, "href"@) {
            None => Err(LinkFromNodeError::HrefNotFound),
            Some(h) => Ok(
                LinkModel {
                    link: escaped(h),
                    text: escaped(without_suffix(text_of(s, i), discuss_marker())),
                },
            ),
        },
    }
}

/// The lines that render a link: its text, then an anchor labelled with the
/// short form of its target.
pub open spec fn link_line(l: LinkModel) -> Seq<char> {
    l.text + "\n<a href=\""@ + l.link + "\">"@ + label_of(l.link) + "</a>\n"@
}

impl View for Link {
    type V = LinkModel;

    closed spec fn view(&self) -> LinkModel {
        LinkModel { link: self.link@, text: self.text@ }
    }
}

impl Link {
    /// A link to `link` with text `text`, both escaped.
    pub fn new(link: String, text: String) -> (r: Link)
        ensures
            r@ == (LinkModel { link: escaped(link@), text: escaped(text@) }),
    {
        Link { link: escape(link), text: escape(text) }
    }

    /// The link that list item `node` of `doc` gives.
    pub fn from_node(doc: &Markup, node: usize) -> (r: Result<Link, LinkFromNodeError>)
        ensures
            link_result(r) == link_from_node(doc@, node as int),
    {
        if node >= doc.len() {
            return Err(LinkFromNodeError::NextNotFound);
        }
        let text = strip_suffix(doc.text(node).as_str(), ". [discuss]");
        let anchor = match doc.first_named_below(node, "a") {
            Some(a) => a,
            None => {
                return Err(LinkFromNodeError::NextNotFound);
            },
        };
        match doc.attr(anchor, "href") {
            Some(h) => Ok(Link::new(h, text)),
            None => Err(LinkFromNodeError::HrefNotFound),
        }
    }

    /// The link rendered as delivery text.
    pub fn render(&self) -> (r: String)
        ensures
            r@ == link_line(self@),
    {
        let mut r = String::new();
        r.append(self.text.as_str());
        r.append("\n<a href=\"");
        r.append(self.link.as_str());
        r.append("\">");
        r.append(short_label(self.link.as_str()).as_str());
        r.append("</a>\n");
        r
    }
}

/// The model of a link result.
pub open spec fn link_result(r: Result<Link, LinkFromNodeError>) -> Result<
    LinkModel,
    LinkFromNodeError,
> {
    match r {
        Ok(l) => Ok(l@),
        Err(e) => Err(e),
    }
}

/// The models of `v`'s links.
pub open spec fn link_models(v: Seq<Link>) -> Seq<LinkModel> {
    v.map_values(|l: Link| l@)
}

/// Links rendered one after the other, a blank line between two.
pub open spec fn links_text(ls: Seq<LinkModel>) -> Seq<char>
    decreases ls.len(),
{
    if ls.len() == 0 {
        Seq::empty()
    } else if ls.len() == 1 {
        link_line(ls[0])
    } else {
        links_text(ls.drop_last()) + "\n"@ + link_line(ls.last())
    }
}

/// A list of links under a subtitle, or nothing for an empty list.
pub open spec fn subtitled(ls: Seq<LinkModel>, subtitle: Seq<char>) -> Seq<char> {
    if ls.len() == 0 {
        Seq::empty()
    } else {
        "\n<b>"@ + subtitle + "</b>\n"@ + links_text(ls)
    }
}

/// An ordered list of links.
#[derive(Debug)]
pub struct LinksList(Vec<Link>);

impl View for LinksList {
    type V = Seq<LinkModel>;

    closed spec fn view(&self) -> Seq<LinkModel> {
        link_models(self.0@)
    }
}

impl LinksList {
    pub fn new(links: Vec<Link>) -> (r: LinksList)
        ensures
            r@ == link_models(links@),
    {
        LinksList(links)
    }

    pub fn len(&self) -> (r: usize)
        ensures
            r == self@.len(),
    {
        self.0.len()
    }

    pub fn is_empty(&self) -> (r: bool)
        ensures
            r == (self@.len() == 0),
    {
        self.0.len() == 0
    }

    /// The links rendered as delivery text.
    pub fn render(&self) -> (r: String)
        ensures
            r@ == links_text(self@),
    {
        let ghost ls = self@;
        let mut r = String::new();
        let mut k: usize = 0;
        while k < self.0.len()
            invariant
                k <= self.0.len(),
                ls == link_models(self.0@),
                r@ == links_text(ls.take(k as int)),
            decreases self.0.len() - k,
        {
            assert(ls.take(k + 1).drop_last() =~= ls.take(k as int));
            assert(ls.take(k + 1).last() == self.0@[k as int]@);
            if k > 0 {
                r.append("\n");
            } else {
                assert(ls.take(k as int).len() == 0);
            }
            r.append(self.0[k].render().as_str());
            k = k + 1;
        }
        assert(ls.take(self.0.len() as int) =~= ls);
        r
    }

    /// The links under the bold subtitle `subtitle`, or nothing if there are
    /// none.
    pub fn fmt_with_subtitle(&self, subtitle: &str) -> (r: String)
        ensures
            r@ == subtitled(self@, subtitle@),
    {
        let mut r = String::new();
        if self.is_empty() {
            return r;
        }
        r.append("\n<b>");
        r.append(subtitle);
        r.append("</b>\n");
        r.append(self.render().as_str());
        r
    }
}

/// A named subsection of community updates.
#[derive(Debug)]
pub struct NamedLinksList {
    pub name: String,
    pub links: LinksList,
}

/// What a `NamedLinksList` holds.
pub struct GroupModel {
    pub name: Seq<char>,
    pub links: Seq<LinkModel>,
}

impl View for NamedLinksList {
    type V = GroupModel;

    open spec fn view(&self) -> GroupModel {
        GroupModel { name: self.name@, links: self.links@ }
    }
}

/// The models of `v`'s groups.
pub open spec fn group_models(v: Seq<NamedLinksList>) -> Seq<GroupModel> {
    v.map_values(|g: NamedLinksList| g@)
}

/// Each group under its name as subtitle, empty groups left out.
pub open spec fn groups_text(gs: Seq<GroupModel>) -> Seq<char>
    decreases gs.len(),
{
    if gs.len() == 0 {
        Seq::empty()
    } else {
        groups_text(gs.drop_last()) + subtitled(gs.last().links, gs.last().name)
    }
}

/// The community updates block.
pub open spec fn community_text(gs: Seq<GroupModel>) -> Seq<char> {
    "<b>Updates from Rust Community</b>\n"@ + groups_text(gs)
}

/// The community updates of an issue: its named groups in page order.
#[derive(Debug)]
pub struct CommunityUpdates {
    pub updates: Vec<NamedLinksList>,
}

impl View for CommunityUpdates {
    type V = Seq<GroupModel>;

    open spec fn view(&self) -> Seq<GroupModel> {
        group_models(self.updates@)
    }
}

impl CommunityUpdates {
    /// The block rendered as delivery text.
    pub fn render(&self) -> (r: String)
        ensures
            r@ == community_text(self@),
    {
        let ghost gs = self@;
        let mut r = String::new();
        r.append("<b>Updates from Rust Community</b>\n");
        let mut k: usize = 0;
        while k < self.updates.len()
            invariant
                k <= self.updates.len(),
                gs == group_models(self.updates@),
                r@ == community_text(gs.take(k as int)),
            decreases self.updates.len() - k,
        {
            assert(gs.take(k + 1).drop_last() =~= gs.take(k as int));
            assert(gs.take(k + 1).last() == self.updates@[k as int]@);
            let g = &self.updates[k];
            r.append(g.links.fmt_with_subtitle(g.name.as_str()).as_str());
            k = k + 1;
        }
        assert(gs.take(self.updates.len() as int) =~= gs);
        r
    }
}

/// A block made only of empty groups is the bare title.
pub proof fn lemma_empty_groups_render_title(gs: Seq<GroupModel>)
    requires
        forall|i: int| 0 <= i < gs.len() ==> (#[trigger] gs[i]).links.len() == 0,
    ensures
        groups_text(gs) == Seq::<char>::empty(),
        community_text(gs) == "<b>Updates from Rust Community</b>\n"@,
    decreases gs.len(),
{
    if gs.len() > 0 {
        assert(gs.last() == gs[gs.len() - 1]);
        lemma_empty_groups_render_title(gs.drop_last());
    }
    assert("<b>Updates from Rust Community</b>\n"@ + Seq::<char>::empty()
        =~= "<b>Updates from Rust Community</b>\n"@);
}

/// The crate of the week: its name, its description and its link.
#[derive(Debug)]
pub struct CrateOfWeek {
    pub name: String,
    pub text: String,
    pub link: String,
}

/// What a `CrateOfWeek` holds.
pub struct CrateModel {
    pub name: Seq<char>,
    pub text: Seq<char>,
    pub link: Seq<char>,
}

impl View for CrateOfWeek {
    type V = CrateModel;

    open spec fn view(&self) -> CrateModel {
        CrateModel { name: self.name@, text: self.text@, link: self.link@ }
    }
}

/// The crate of the week block.
pub open spec fn crate_text(c: CrateModel) -> Seq<char> {
    "<b>Crate of the week:</b> <a href=\""@ + c.link + "\">"@ + c.name + "</a>\n\n"@ + c.text
        + "\n"@
}

impl CrateOfWeek {
    /// The block rendered as delivery text.
    pub fn render(&self) -> (r: String)
        ensures
            r@ == crate_text(self@),
    {
        let mut r = String::new();
        r.append("<b>Crate of the week:</b> <a href=\"");
        r.append(self.link.as_str());
        r.append("\">");
        r.append(self.name.as_str());
        r.append("</a>\n\n");
        r.append(self.text.as_str());
        r.append("\n");
        r
    }
}

/// The updates from the core project: one list of links.
#[derive(Debug)]
pub struct CoreUpdates(LinksList);

impl View for CoreUpdates {
    type V = Seq<LinkModel>;

    closed spec fn view(&self) -> Seq<LinkModel> {
        self.0@
    }
}

/// The core updates block.
pub open spec fn core_text(ls: Seq<LinkModel>) -> Seq<char> {
    "<b>Updates from core</b>\n\n"@ + links_text(ls)
}

impl CoreUpdates {
    pub fn new(list: Vec<Link>) -> (r: CoreUpdates)
        ensures
            r@ == link_models(list@),
    {
        CoreUpdates(LinksList::new(list))
    }

    /// The block rendered as delivery text.
    pub fn render(&self) -> (r: String)
        ensures
            r@ == core_text(self@),
    {
        let mut r = String::new();
        r.append("<b>Updates from core</b>\n\n");
        r.append(self.0.render().as_str());
        r
    }
}

/// One issue of the digest, as extracted from its page.
#[derive(Debug)]
pub struct Article {
    pub id: i32,
    pub date: String,
    pub link: String,
    pub community: CommunityUpdates,
    pub crate_of_week: CrateOfWeek,
    pub core: CoreUpdates,
}

/// What an `Article` holds.
pub struct ArticleModel {
    pub id: int,
    pub date: Seq<char>,
    pub link: Seq<char>,
    pub community: Seq<GroupModel>,
    pub crate_of_week: CrateModel,
    pub core: Seq<LinkModel>,
}

impl View for Article {
    type V = ArticleModel;

    open spec fn view(&self) -> ArticleModel {
        ArticleModel {
            id: self.id as int,
            date: self.date@,
            link: self.link@,
            community: self.community@,
            crate_of_week: self.crate_of_week@,
            core: self.core@,
        }
    }
}

/// The head block of issue `id`, given its date already in lower case.
pub open spec fn head_text(id: int, lower_date: Seq<char>, link: Seq<char>) -> Seq<char> {
    "<b>This week in Rust #"@ + decimal_of(id) + "</b> — "@ + lower_date + "\n\n"@ + link
}

/// The head block of issue `id` published on `lower_date` at `link`.
pub fn format_head(id: i32, lower_date: &str, link: &str) -> (r: String)
    ensures
        r@ == head_text(id as int, lower_date@, link@),
{
    let mut r = String::new();
    r.append("<b>This week in Rust #");
    r.append(decimal(id).as_str());
    r.append("</b> — ");
    r.append(lower_date);
    r.append("\n\n");
    r.append(link);
    r
}

impl Article {
    /// The head block: number, date in lower case and link of the issue.
    pub fn head(&self) -> (r: String)
        ensures
            r@ == head_text(self.id as int, lower_of(self.date@), self.link@),
    {
        let date = lowercase(self.date.as_str());
        format_head(self.id, date.as_str(), self.link.as_str())
    }

    /// The community updates block.
    pub fn community_updates(&self) -> (r: String)
        ensures
            r@ == community_text(self.community@),
    {
        self.community.render()
    }

    /// The crate of the week block.
    pub fn crate_of_week(&self) -> (r: String)
        ensures
            r@ == crate_text(self.crate_of_week@),
    {
        self.crate_of_week.render()
    }

    /// The core updates block.
    pub fn core_updates(&self) -> (r: String)
        ensures
            r@ == core_text(self.core@),
    {
        self.core.render()
    }
}

} // verus!
