use vstd::prelude::*;

use crate::copies::copy_strings;
use crate::store::StoreSchema;

verus! {

/// Where and as whom records are written to the Notion database.
pub struct NotionCommand {
    pub database_id: String,
    pub notify_user_id: String,
    pub notion_api_key: String,
}

impl NotionCommand {
    pub fn build(database_id: String, notify_user_id: String, notion_api_key: String) -> (r: Self)
        ensures
            r.database_id == database_id,
            r.notify_user_id == notify_user_id,
            r.notion_api_key == notion_api_key,
    {
        NotionCommand { database_id, notify_user_id, notion_api_key }
    }

    /// The value of the `Authorization` header of a request.
    pub fn authorization(&self) -> (r: String)
        ensures
            r@ == "Bearer "@ + self.notion_api_key@,
    {
        String::from_str("Bearer ").concat(self.notion_api_key.as_str())
    }
}

/// The `Notion-Version` header sent with every request.
pub const NOTION_API_VERSION: &'static str = "2022-02-22";

/// The endpoint that creates a page in a database.
pub const NOTION_CREATE_PAGE_URL: &'static str = "https://api.notion.com/v1/pages";

// The request body of a page creation. Each `kind` field is written as the
// JSON key `type`.

pub struct NotionParentQuery {
    pub kind: String,
    pub database_id: String,
}

pub struct NotionContentQuery {
    pub content: String,
}

pub struct NotionTextQuery {
    pub kind: String,
    pub text: NotionContentQuery,
}

pub struct NotionTitleQuery {
    pub kind: String,
    pub title: Vec<NotionTextQuery>,
}

pub struct NotionRichTextQuery {
    pub rich_text: Vec<NotionTextQuery>,
    pub kind: String,
}

pub struct NotionStartDateQuery {
    /// Milliseconds since the Unix epoch.
    pub start: u64,
}

pub struct NotionDateQuery {
    pub date: NotionStartDateQuery,
}

pub struct NotionUrlQuery {
    pub url: String,
}

pub struct NotionSelectQuery {
    pub name: String,
}

pub struct NotionMultiSelectQuery {
    pub multi_select: Vec<NotionSelectQuery>,
}

pub struct NotionPropertiesQuery {
    pub blog_name: NotionRichTextQuery,
    pub article_title: NotionTitleQuery,
    pub tags: NotionMultiSelectQuery,
    pub guid: NotionRichTextQuery,
    pub description: NotionRichTextQuery,
    pub link: Option<NotionUrlQuery>,
    pub published_date: Option<NotionDateQuery>,
}

pub struct NotionQuery {
    pub parent: NotionParentQuery,
    pub properties: NotionPropertiesQuery,
}

/// A run of exactly one piece of plain text.
pub open spec fn is_text_run(v: Seq<NotionTextQuery>, content: Seq<char>) -> bool {
    v.len() == 1 && v[0].kind@ == "text"@ && v[0].text.content@ == content
}

pub open spec fn is_rich_text(q: NotionRichTextQuery, content: Seq<char>) -> bool {
    q.kind@ == "rich_text"@ && is_text_run(q.rich_text@, content)
}

fn text_run(content: String) -> (r: Vec<NotionTextQuery>)
    ensures
        is_text_run(r@, content@),
{
    vec![NotionTextQuery { kind: String::from_str("text"), text: NotionContentQuery { content } }]
}

fn rich_text(content: String) -> (r: NotionRichTextQuery)
    ensures
        is_rich_text(r, content@),
{
    NotionRichTextQuery { rich_text: text_run(content), kind: String::from_str("rich_text") }
}

impl NotionQuery {
    /// The page that records `store_schema` in the database `database_id`.
    pub fn from_store_schema(store_schema: StoreSchema, database_id: String) -> (r: Self)
        ensures
            r.parent.kind@ == "database_id"@,
            r.parent.database_id == database_id,
            r.properties.article_title.kind@ == "title"@,
            is_text_run(r.properties.article_title.title@, store_schema.article_title@),
            is_rich_text(r.properties.blog_name, store_schema.blog_title@),
            is_rich_text(r.properties.guid, store_schema.guid@),
            is_rich_text(r.properties.description, store_schema.description@),
            r.properties.tags.multi_select@.len() == store_schema.tags@.len(),
            forall|i: int|
                0 <= i < store_schema.tags@.len() ==> (#[trigger] r.properties.tags.multi_select@[i]).name
                    == store_schema.tags@[i],
            match store_schema.link {
                Some(l) => r.properties.link matches Some(u) && u.url == l,
                None => r.properties.link is None,
            },
            match store_schema.published_date {
                Some(d) => r.properties.published_date matches Some(q) && q.date.start == d,
                None => r.properties.published_date is None,
            },
    {
        let tags = copy_strings(&store_schema.tags);
        let mut multi_select: Vec<NotionSelectQuery> = Vec::new();
        let mut i: usize = 0;
        while i < tags.len()
            invariant
                i <= tags@.len(),
                tags@ == store_schema.tags@,
                multi_select@.len() == i,
                forall|j: int| 0 <= j < i ==> (#[trigger] multi_select@[j]).name == tags@[j],
            decreases tags@.len() - i,
        {
            multi_select.push(NotionSelectQuery { name: tags[i].clone() });
            i = i + 1;
        }
        let link = match store_schema.link {
            Some(l) => Some(NotionUrlQuery { url: l }),
            None => None,
        };
        let published_date = match store_schema.published_date {
            Some(d) => Some(NotionDateQuery { date: NotionStartDateQuery { start: d } }),
            None => None,
        };
        NotionQuery {
            parent: NotionParentQuery { kind: String::from_str("database_id"), database_id },
            properties: NotionPropertiesQuery {
                article_title: NotionTitleQuery {
                    title: text_run(store_schema.article_title),
                    kind: String::from_str("title"),
                },
                blog_name: rich_text(store_schema.blog_title),
                tags: NotionMultiSelectQuery { multi_select },
                guid: rich_text(store_schema.guid),
                description: rich_text(store_schema.description),
                link,
                published_date,
            },
        }
    }
}

} // verus!
