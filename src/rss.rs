use vstd::prelude::*;

use crate::nesting::{MAX_XML_DEPTH, deepest_nesting, nesting_within};
use crate::xml::{XmlNode, XmlTree, opt_str_view, parse_xml, xml_tree_of};

verus! {

/// One normalised feed entry.
pub struct RssItem {
    pub id: String,
    pub blog_title: String,
    pub article_title: String,
    /// The text of the entry's date element, as the feed wrote it.
    pub published_date: Option<String>,
    pub article_url: Option<String>,
    pub categories: Vec<String>,
    pub description: String,
}

/// The mathematical value of an `RssItem`.
pub struct ItemModel {
    pub id: Seq<char>,
    pub blog_title: Seq<char>,
    pub article_title: Seq<char>,
    pub published_date: Option<Seq<char>>,
    pub article_url: Option<Seq<char>>,
    pub categories: Seq<Seq<char>>,
    pub description: Seq<char>,
}

pub open spec fn strs_view(v: Seq<String>) -> Seq<Seq<char>> {
    v.map_values(|s: String| s@)
}

impl View for RssItem {
    type V = ItemModel;

    open spec fn view(&self) -> ItemModel {
        ItemModel {
            id: self.id@,
            blog_title: self.blog_title@,
            article_title: self.article_title@,
            published_date: opt_str_view(self.published_date),
            article_url: opt_str_view(self.article_url),
            categories: strs_view(self.categories@),
            description: self.description@,
        }
    }
}

/// A parsed feed: the title of the blog and its entries in document order.
pub struct Rss {
    pub blog_title: String,
    pub items: Vec<RssItem>,
}

pub struct FeedModel {
    pub blog_title: Seq<char>,
    pub items: Seq<ItemModel>,
}

pub open spec fn items_view(v: Seq<RssItem>) -> Seq<ItemModel> {
    v.map_values(|i: RssItem| i@)
}

impl View for Rss {
    type V = FeedModel;

    open spec fn view(&self) -> FeedModel {
        FeedModel { blog_title: self.blog_title@, items: items_view(self.items@) }
    }
}

/// A feed-level element whose absence makes a whole document unusable.
#[derive(Clone, Copy, Debug, PartialEq, Eq, Structural)]
pub enum RequiredElement {
    Channel,
    Title,
}

#[derive(Clone, Copy, Debug, PartialEq, Eq, Structural)]
pub enum RssError {
    /// The text is not well-formed XML.
    MalformedXml,
    /// The text nests elements more than `MAX_XML_DEPTH` deep.
    TooDeeplyNested,
    /// A required feed-level element is absent or has no text.
    MissingElement(RequiredElement),
}

impl RssItem {
    pub fn new(
        id: String,
        blog_title: String,
        article_title: String,
        published_date: Option<String>,
        article_url: Option<String>,
        categories: Vec<String>,
        description: String,
    ) -> (r: Self)
        ensures
            r.id == id,
            r.blog_title == blog_title,
            r.article_title == article_title,
            r.published_date == published_date,
            r.article_url == article_url,
            r.categories == categories,
            r.description == description,
    {
        RssItem { id, blog_title, article_title, published_date, article_url, categories, description }
    }
}

// ---- the model of parsing ----

/// The first node of `s` whose tag is `name`.
pub open spec fn first_named(s: Seq<XmlTree>, name: Seq<char>) -> Option<XmlTree>
    decreases s.len(),
{
    if s.len() == 0 {
        None
    } else {
        match first_named(s.drop_last(), name) {
            Some(t) => Some(t),
            None => if s.last().name == name {
                Some(s.last())
            } else {
                None
            },
        }
    }
}

pub open spec fn text_of(o: Option<XmlTree>) -> Option<Seq<char>> {
    match o {
        Some(t) => t.text,
        None => None,
    }
}

/// The text of the first child of `s` named `name`, if that child has text.
pub open spec fn child_text_of(s: Seq<XmlTree>, name: Seq<char>) -> Option<Seq<char>> {
    text_of(first_named(s, name))
}

/// The first of two optional child texts that is present.
pub open spec fn either_text(s: Seq<XmlTree>, first: Seq<char>, second: Seq<char>) -> Option<Seq<char>> {
    match child_text_of(s, first) {
        Some(t) => Some(t),
        None => child_text_of(s, second),
    }
}

/// The non-empty texts of the `category` nodes of `s`, in order.
pub open spec fn categories_of(s: Seq<XmlTree>) -> Seq<Seq<char>>
    decreases s.len(),
{
    if s.len() == 0 {
        Seq::empty()
    } else {
        let prev = categories_of(s.drop_last());
        let c = s.last();
        if c.name == "category"@ && c.text is Some && c.text.unwrap().len() > 0 {
            prev.push(c.text.unwrap())
        } else {
            prev
        }
    }
}

/// The identity given to an entry without a guid or id of its own.
pub open spec fn synthesized_id(blog_title: Seq<char>, article_title: Seq<char>) -> Seq<char> {
    blog_title + "__"@ + article_title
}

/// The entry that an `item` (or `entry`) node yields, or `None` where its
/// title or description is missing.
pub open spec fn item_of(
    node: XmlTree,
    blog_title: Seq<char>,
    root_categories: Seq<Seq<char>>,
) -> Option<ItemModel> {
    let ch = node.children;
    match (child_text_of(ch, "title"@), child_text_of(ch, "description"@)) {
        (Some(title), Some(description)) => Some(
            ItemModel {
                id: match either_text(ch, "guid"@, "id"@) {
                    Some(g) => g,
                    None => synthesized_id(blog_title, title),
                },
                blog_title,
                article_title: title,
                published_date: either_text(ch, "pubDate"@, "updated"@),
                article_url: child_text_of(ch, "link"@),
                categories: categories_of(ch) + root_categories,
                description,
            },
        ),
        _ => None,
    }
}

/// Whether a node's tag marks an entry: `item` in RSS, `item` or `entry` in Atom.
pub open spec fn is_entry_tag(name: Seq<char>, atom: bool) -> bool {
    name == "item"@ || (atom && name == "entry"@)
}

/// The entries of a container's children, in order, malformed ones left out.
pub open spec fn items_of(
    s: Seq<XmlTree>,
    atom: bool,
    blog_title: Seq<char>,
    root_categories: Seq<Seq<char>>,
) -> Seq<ItemModel>
    decreases s.len(),
{
    if s.len() == 0 {
        Seq::empty()
    } else {
        let prev = items_of(s.drop_last(), atom, blog_title, root_categories);
        let c = s.last();
        if is_entry_tag(c.name, atom) {
            match item_of(c, blog_title, root_categories) {
                Some(it) => prev.push(it),
                None => prev,
            }
        } else {
            prev
        }
    }
}

/// The feed held by a container node: the `channel` of RSS, the root of Atom.
pub open spec fn feed_in(container: XmlTree, atom: bool) -> Result<FeedModel, RssError> {
    let ch = container.children;
    match child_text_of(ch, "title"@) {
        None => Err(RssError::MissingElement(RequiredElement::Title)),
        Some(title) => Ok(
            FeedModel { blog_title: title, items: items_of(ch, atom, title, categories_of(ch)) },
        ),
    }
}

/// The feed of a document whose root element is `root`.
pub open spec fn feed_of(root: XmlTree) -> Result<FeedModel, RssError> {
    if root.name == "rss"@ {
        match first_named(root.children, "channel"@) {
            None => Err(RssError::MissingElement(RequiredElement::Channel)),
            Some(channel) => feed_in(channel, false),
        }
    } else {
        feed_in(root, true)
    }
}

/// The feed of an XML text.
pub open spec fn feed_of_text(text: Seq<char>) -> Result<FeedModel, RssError> {
    if deepest_nesting(text) > MAX_XML_DEPTH {
        Err(RssError::TooDeeplyNested)
    } else {
        match xml_tree_of(text) {
            None => Err(RssError::MalformedXml),
            Some(root) => feed_of(root),
        }
    }
}

pub open spec fn result_view(r: Result<Rss, RssError>) -> Result<FeedModel, RssError> {
    match r {
        Ok(f) => Ok(f@),
        Err(e) => Err(e),
    }
}

// ---- laws of parsing ----

/// Whether a node is an entry that parsing keeps: an entry tag with a title
/// and a description that have text.
pub open spec fn is_valid_entry(node: XmlTree, atom: bool) -> bool {
    is_entry_tag(node.name, atom) && child_text_of(node.children, "title"@) is Some
        && child_text_of(node.children, "description"@) is Some
}

pub open spec fn valid_entry_count(s: Seq<XmlTree>, atom: bool) -> nat
    decreases s.len(),
{
    if s.len() == 0 {
        0
    } else {
        valid_entry_count(s.drop_last(), atom) + if is_valid_entry(s.last(), atom) {
            1nat
        } else {
            0nat
        }
    }
}

proof fn lemma_items_count(
    s: Seq<XmlTree>,
    atom: bool,
    blog_title: Seq<char>,
    root_categories: Seq<Seq<char>>,
)
    ensures
        items_of(s, atom, blog_title, root_categories).len() == valid_entry_count(s, atom),
    decreases s.len(),
{
    if s.len() > 0 {
        lemma_items_count(s.drop_last(), atom, blog_title, root_categories);
    }
}

/// An RSS document, nested no deeper than `MAX_XML_DEPTH`, whose channel has a titled `title` yields that title as
/// the blog title and exactly one entry per valid `item` of the channel.
pub proof fn lemma_rss_keeps_valid_items(text: Seq<char>, channel: XmlTree, title: Seq<char>)
    requires
        deepest_nesting(text) <= MAX_XML_DEPTH,
        xml_tree_of(text) is Some,
        xml_tree_of(text).unwrap().name == "rss"@,
        first_named(xml_tree_of(text).unwrap().children, "channel"@) == Some(channel),
        child_text_of(channel.children, "title"@) == Some(title),
    ensures
        feed_of_text(text) is Ok,
        feed_of_text(text).unwrap().blog_title == title,
        feed_of_text(text).unwrap().items.len() == valid_entry_count(channel.children, false),
{
    lemma_items_count(channel.children, false, title, categories_of(channel.children));
}

/// `atom` holds the nodes of `rss` with each `item` renamed `entry`, and
/// `rss` holds no `entry` of its own.
pub open spec fn atom_twin(rss: Seq<XmlTree>, atom: Seq<XmlTree>) -> bool {
    &&& rss.len() == atom.len()
    &&& forall|i: int|
        0 <= i < rss.len() ==> if (#[trigger] rss[i]).name == "item"@ {
            atom[i] == XmlTree { name: "entry"@, text: rss[i].text, children: rss[i].children }
        } else {
            atom[i] == rss[i] && rss[i].name != "entry"@
        }
}

proof fn lemma_twin_prefix(rss: Seq<XmlTree>, atom: Seq<XmlTree>)
    requires
        atom_twin(rss, atom),
        rss.len() > 0,
    ensures
        atom_twin(rss.drop_last(), atom.drop_last()),
{
    assert forall|i: int| 0 <= i < rss.len() - 1 implies if (#[trigger] rss.drop_last()[i]).name
        == "item"@ {
        atom.drop_last()[i] == XmlTree {
            name: "entry"@,
            text: rss.drop_last()[i].text,
            children: rss.drop_last()[i].children,
        }
    } else {
        atom.drop_last()[i] == rss.drop_last()[i] && rss.drop_last()[i].name != "entry"@
    } by {
        assert(rss[i] == rss.drop_last()[i]);
    }
}

proof fn lemma_twin_first_named(rss: Seq<XmlTree>, atom: Seq<XmlTree>, name: Seq<char>)
    requires
        atom_twin(rss, atom),
        name != "item"@,
        name != "entry"@,
    ensures
        first_named(atom, name) == first_named(rss, name),
    decreases rss.len(),
{
    if rss.len() > 0 {
        lemma_twin_prefix(rss, atom);
        lemma_twin_first_named(rss.drop_last(), atom.drop_last(), name);
        assert(rss.last() == rss[rss.len() - 1]);
    }
}

proof fn lemma_twin_categories(rss: Seq<XmlTree>, atom: Seq<XmlTree>)
    requires
        atom_twin(rss, atom),
    ensures
        categories_of(atom) == categories_of(rss),
    decreases rss.len(),
{
    if rss.len() > 0 {
        lemma_twin_prefix(rss, atom);
        lemma_twin_categories(rss.drop_last(), atom.drop_last());
        assert(rss.last() == rss[rss.len() - 1]);
        reveal_strlit("category");
        reveal_strlit("item");
        reveal_strlit("entry");
        assert("category"@.len() == 8 && "item"@.len() == 4 && "entry"@.len() == 5);
    }
}

proof fn lemma_twin_items(
    rss: Seq<XmlTree>,
    atom: Seq<XmlTree>,
    blog_title: Seq<char>,
    root_categories: Seq<Seq<char>>,
)
    requires
        atom_twin(rss, atom),
    ensures
        items_of(atom, true, blog_title, root_categories) == items_of(
            rss,
            false,
            blog_title,
            root_categories,
        ),
    decreases rss.len(),
{
    if rss.len() > 0 {
        lemma_twin_prefix(rss, atom);
        lemma_twin_items(rss.drop_last(), atom.drop_last(), blog_title, root_categories);
        assert(rss.last() == rss[rss.len() - 1]);
    }
}

/// An Atom document whose root holds what an RSS document's channel holds,
/// with `entry` in place of `item`, reads as the same feed.
pub proof fn lemma_dialects_agree(rss_root: XmlTree, channel: XmlTree, atom_root: XmlTree)
    requires
        rss_root.name == "rss"@,
        first_named(rss_root.children, "channel"@) == Some(channel),
        atom_root.name != "rss"@,
        atom_twin(channel.children, atom_root.children),
    ensures
        feed_of(atom_root) == feed_of(rss_root),
{
    reveal_strlit("title");
    reveal_strlit("item");
    reveal_strlit("entry");
    assert("title"@.len() == 5 && "item"@.len() == 4);
    assert("title"@[0] == 't' && "entry"@[0] == 'e');
    lemma_twin_first_named(channel.children, atom_root.children, "title"@);
    lemma_twin_categories(channel.children, atom_root.children);
    match child_text_of(channel.children, "title"@) {
        Some(title) => {
            lemma_twin_items(
                channel.children,
                atom_root.children,
                title,
                categories_of(channel.children),
            );
        },
        None => {},
    }
}

/// Parsing one text twice gives each entry the same id both times, and an
/// entry without guid or id text gets `<blog title>__<entry title>`.
pub proof fn lemma_ids_stable(text: Seq<char>, first: FeedModel, second: FeedModel)
    requires
        feed_of_text(text) == Ok::<FeedModel, RssError>(first),
        feed_of_text(text) == Ok::<FeedModel, RssError>(second),
    ensures
        first.items.len() == second.items.len(),
        forall|i: int| 0 <= i < first.items.len() ==> #[trigger] first.items[i].id == second.items[i].id,
{
}

/// An entry without guid or id text is identified by the blog title and its
/// own title.
pub proof fn lemma_id_synthesized(node: XmlTree, blog_title: Seq<char>, root_categories: Seq<Seq<char>>)
    requires
        item_of(node, blog_title, root_categories) is Some,
        child_text_of(node.children, "guid"@) is None,
        child_text_of(node.children, "id"@) is None,
    ensures
        item_of(node, blog_title, root_categories).unwrap().id == synthesized_id(
            blog_title,
            child_text_of(node.children, "title"@).unwrap(),
        ),
{
}

proof fn lemma_categories_non_empty(s: Seq<XmlTree>)
    ensures
        forall|j: int| 0 <= j < categories_of(s).len() ==> (#[trigger] categories_of(s)[j]).len() > 0,
    decreases s.len(),
{
    if s.len() > 0 {
        lemma_categories_non_empty(s.drop_last());
        let prev = categories_of(s.drop_last());
        let all = categories_of(s);
        assert forall|j: int| 0 <= j < all.len() implies (#[trigger] all[j]).len() > 0 by {
            if j < prev.len() {
                assert(all[j] == prev[j]);
            }
        }
    }
}

/// An entry's categories are its own non-empty category texts in document
/// order, then the feed's; none of them is empty.
pub proof fn lemma_categories_merged(node: XmlTree, feed_children: Seq<XmlTree>, blog_title: Seq<char>)
    requires
        item_of(node, blog_title, categories_of(feed_children)) is Some,
    ensures
        item_of(node, blog_title, categories_of(feed_children)).unwrap().categories == categories_of(
            node.children,
        ) + categories_of(feed_children),
        forall|j: int|
            0 <= j < item_of(node, blog_title, categories_of(feed_children)).unwrap().categories.len()
                ==> (#[trigger] item_of(node, blog_title, categories_of(feed_children)).unwrap().categories[j]).len() > 0,
{
    lemma_categories_non_empty(node.children);
    lemma_categories_non_empty(feed_children);
    let own = categories_of(node.children);
    let feed = categories_of(feed_children);
    let all = own + feed;
    assert forall|j: int| 0 <= j < all.len() implies (#[trigger] all[j]).len() > 0 by {
        if j < own.len() {
            assert(all[j] == own[j]);
        } else {
            assert(all[j] == feed[j - own.len()]);
        }
    }
}

// ---- execution ----

fn is_named(node: &XmlNode, name: &str) -> (r: bool)
    ensures
        r == (node@.name == name@),
{
    let wanted = String::from_str(name);
    node.name == wanted
}

/// The index of the first child of `node` named `name`.
fn find_child(node: &XmlNode, name: &str) -> (r: Option<usize>)
    ensures
        match r {
            Some(k) => k < node.children@.len() && first_named(node@.children, name@) == Some(
                node@.children[k as int],
            ),
            None => first_named(node@.children, name@) is None,
        },
{
    let ghost kids = node@.children;
    let mut found: Option<usize> = None;
    let mut i: usize = 0;
    while i < node.children.len()
        invariant
            i <= node.children@.len(),
            kids == node@.children,
            kids.len() == node.children@.len(),
            match found {
                Some(k) => k < i && first_named(kids.subrange(0, i as int), name@) == Some(
                    kids[k as int],
                ),
                None => first_named(kids.subrange(0, i as int), name@) is None,
            },
        decreases node.children@.len() - i,
    {
        assert(kids.subrange(0, i + 1).drop_last() =~= kids.subrange(0, i as int));
        assert(kids[i as int] == node.children@[i as int]@);
        if found.is_none() && is_named(&node.children[i], name) {
            found = Some(i);
        }
        i = i + 1;
    }
    assert(kids.subrange(0, i as int) =~= kids);
    found
}

/// The text of the first child of `node` named `name`.
fn child_text(node: &XmlNode, name: &str) -> (r: Option<String>)
    ensures
        opt_str_view(r) == child_text_of(node@.children, name@),
{
    match find_child(node, name) {
        Some(k) => {
            assert(node@.children[k as int] == node.children@[k as int]@);
            match &node.children[k].text {
                Some(t) => Some(t.clone()),
                None => None,
            }
        },
        None => None,
    }
}

/// The text of the first child named `first`, else of the first named `second`.
fn either_child_text(node: &XmlNode, first: &str, second: &str) -> (r: Option<String>)
    ensures
        opt_str_view(r) == either_text(node@.children, first@, second@),
{
    match child_text(node, first) {
        Some(t) => Some(t),
        None => child_text(node, second),
    }
}

/// The non-empty texts of the `category` children of `node`, in order.
fn categories(node: &XmlNode) -> (r: Vec<String>)
    ensures
        strs_view(r@) == categories_of(node@.children),
{
    let ghost kids = node@.children;
    let mut out: Vec<String> = Vec::new();
    let mut i: usize = 0;
    while i < node.children.len()
        invariant
            i <= node.children@.len(),
            kids == node@.children,
            kids.len() == node.children@.len(),
            strs_view(out@) == categories_of(kids.subrange(0, i as int)),
        decreases node.children@.len() - i,
    {
        assert(kids.subrange(0, i + 1).drop_last() =~= kids.subrange(0, i as int));
        assert(kids[i as int] == node.children@[i as int]@);
        let c = &node.children[i];
        if is_named(c, "category") {
            match &c.text {
                Some(t) => {
                    if !t.as_str().is_empty() {
                        out.push(t.clone());
                        assert(strs_view(out@) =~= categories_of(kids.subrange(0, i as int)).push(t@));
                    }
                },
                None => {},
            }
        }
        i = i + 1;
    }
    assert(kids.subrange(0, i as int) =~= kids);
    out
}

/// The entry that an item node yields, given the feed's title and categories.
fn item_from(node: &XmlNode, blog_title: &String, root_categories: &Vec<String>) -> (r: Option<
    RssItem,
>)
    ensures
        match r {
            Some(it) => item_of(node@, blog_title@, strs_view(root_categories@)) == Some(it@),
            None => item_of(node@, blog_title@, strs_view(root_categories@)) is None,
        },
{
    let article_title = match child_text(node, "title") {
        Some(t) => t,
        None => return None,
    };
    let description = match child_text(node, "description") {
        Some(d) => d,
        None => return None,
    };
    let id = match either_child_text(node, "guid", "id") {
        Some(g) => g,
        None => blog_title.clone().concat("__").concat(article_title.as_str()),
    };
    let published_date = either_child_text(node, "pubDate", "updated");
    let article_url = child_text(node, "link");
    let mut cats = categories(node);
    let ghost own = cats@;
    let mut j: usize = 0;
    while j < root_categories.len()
        invariant
            j <= root_categories@.len(),
            strs_view(cats@) == strs_view(own) + strs_view(root_categories@.subrange(0, j as int)),
        decreases root_categories@.len() - j,
    {
        let ghost before = cats@;
        let c = root_categories[j].clone();
        cats.push(c);
        assert(strs_view(cats@) =~= strs_view(before).push(c@));
        assert(strs_view(root_categories@.subrange(0, j + 1)) =~= strs_view(
            root_categories@.subrange(0, j as int),
        ).push(c@));
        assert(strs_view(cats@) =~= strs_view(own) + strs_view(root_categories@.subrange(0, j + 1)));
        j = j + 1;
    }
    assert(root_categories@.subrange(0, j as int) =~= root_categories@);
    let it = RssItem::new(
        id,
        blog_title.clone(),
        article_title,
        published_date,
        article_url,
        cats,
        description,
    );
    assert(item_of(node@, blog_title@, strs_view(root_categories@)) == Some(it@));
    Some(it)
}

/// The entries under a container node, in document order, malformed ones left out.
fn items_from(container: &XmlNode, atom: bool, blog_title: &String, root_categories: &Vec<String>) -> (r:
    Vec<RssItem>)
    ensures
        items_view(r@) == items_of(
            container@.children,
            atom,
            blog_title@,
            strs_view(root_categories@),
        ),
{
    let ghost kids = container@.children;
    let ghost rc = strs_view(root_categories@);
    let mut out: Vec<RssItem> = Vec::new();
    let mut i: usize = 0;
    while i < container.children.len()
        invariant
            i <= container.children@.len(),
            kids == container@.children,
            kids.len() == container.children@.len(),
            rc == strs_view(root_categories@),
            items_view(out@) == items_of(kids.subrange(0, i as int), atom, blog_title@, rc),
        decreases container.children@.len() - i,
    {
        assert(kids.subrange(0, i + 1).drop_last() =~= kids.subrange(0, i as int));
        assert(kids[i as int] == container.children@[i as int]@);
        let c = &container.children[i];
        if is_named(c, "item") || (atom && is_named(c, "entry")) {
            match item_from(c, blog_title, root_categories) {
                Some(it) => {
                    let ghost before = out@;
                    out.push(it);
                    assert(items_view(out@) =~= items_view(before).push(it@));
                },
                None => {},
            }
        }
        i = i + 1;
    }
    assert(kids.subrange(0, i as int) =~= kids);
    out
}

/// The feed held by a container node: its title, categories and entries.
fn feed_from(container: &XmlNode, atom: bool) -> (r: Result<Rss, RssError>)
    ensures
        result_view(r) == feed_in(container@, atom),
{
    let blog_title = match child_text(container, "title") {
        Some(t) => t,
        None => return Err(RssError::MissingElement(RequiredElement::Title)),
    };
    let root_categories = categories(container);
    let items = items_from(container, atom, &blog_title, &root_categories);
    Ok(Rss { blog_title, items })
}

impl Rss {
    /// Reads an RSS document: the feed lives in the root's `channel` child.
    pub fn from_rss_element_root(root: &XmlNode) -> (r: Result<Rss, RssError>)
        requires
            root@.name == "rss"@,
        ensures
            result_view(r) == feed_of(root@),
    {
        match find_child(root, "channel") {
            Some(k) => {
                assert(root@.children[k as int] == root.children@[k as int]@);
                feed_from(&root.children[k], false)
            },
            None => Err(RssError::MissingElement(RequiredElement::Channel)),
        }
    }

    /// Reads an Atom document: the feed lives in the root itself, and its
    /// entries are `entry` or `item` children.
    pub fn from_feed_element_root(root: &XmlNode) -> (r: Result<Rss, RssError>)
        requires
            root@.name != "rss"@,
        ensures
            result_view(r) == feed_of(root@),
    {
        feed_from(root, true)
    }

    /// Reads a document from the tree of its root element, choosing the
    /// dialect by the root's tag.
    pub fn from_tree(root: &XmlNode) -> (r: Result<Rss, RssError>)
        ensures
            result_view(r) == feed_of(root@),
    {
        if is_named(root, "rss") {
            Self::from_rss_element_root(root)
        } else {
            Self::from_feed_element_root(root)
        }
    }

    /// Parses the text of an RSS 2.0 or Atom document.
    pub fn from_xml(xml: &str) -> (r: Result<Rss, RssError>)
        ensures
            result_view(r) == feed_of_text(xml@),
    {
        if !nesting_within(xml, MAX_XML_DEPTH) {
            return Err(RssError::TooDeeplyNested);
        }
        match parse_xml(xml) {
            Ok(root) => Self::from_tree(&root),
            Err(_) => Err(RssError::MalformedXml),
        }
    }
}

} // verus!
