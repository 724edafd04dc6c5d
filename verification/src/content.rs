//! Uploaded content: the sessions in which it arrives, what is known of it, and the
//! listings that find it again.
use vstd::prelude::*;
use crate::models::{
    clone_tags, ContentVisibility, ProjectId, Tag, TagView, TenantId, UploadStatus,
};
use crate::table::{arranged, insert_ranked, page, page_rows, Ranked, Record};
use crate::text::{
    clone_opt_text, clone_texts, contains_fragment, has_fragment, lowered, same_text,
    to_ascii_lower,
};
use crate::time::Timestamp;

verus! {

/// A session in which one piece of content is uploaded.
#[derive(Debug, PartialEq, Eq)]
pub struct UploadSession {
    pub id: u128,
    pub tenant_id: TenantId,
    pub project_id: ProjectId,
    pub content_id: u128,
    pub status: UploadStatus,
    pub created_at: Timestamp,
    pub updated_at: Timestamp,
    pub expires_at: Option<Timestamp>,
    pub upload_url: Option<String>,
    pub headers: Vec<Tag>,
}

/// The mathematical value of a [`UploadSession`].
pub struct UploadSessionView {
    pub id: u128,
    pub tenant_id: TenantId,
    pub project_id: ProjectId,
    pub content_id: u128,
    pub status: UploadStatus,
    pub created_at: Timestamp,
    pub updated_at: Timestamp,
    pub expires_at: Option<Timestamp>,
    pub upload_url: Option<Seq<char>>,
    pub headers: Seq<TagView>,
}

impl DeepView for UploadSession {
    type V = UploadSessionView;

    open spec fn deep_view(&self) -> UploadSessionView {
        UploadSessionView {
            id: self.id,
            tenant_id: self.tenant_id,
            project_id: self.project_id,
            content_id: self.content_id,
            status: self.status,
            created_at: self.created_at,
            updated_at: self.updated_at,
            expires_at: self.expires_at,
            upload_url: self.upload_url.deep_view(),
            headers: self.headers.deep_view(),
        }
    }
}

impl Clone for UploadSession {
    fn clone(&self) -> (copy: Self)
        ensures
            copy.deep_view() == self.deep_view(),
    {
        UploadSession {
            id: self.id,
            tenant_id: self.tenant_id,
            project_id: self.project_id,
            content_id: self.content_id,
            status: self.status,
            created_at: self.created_at,
            updated_at: self.updated_at,
            expires_at: self.expires_at,
            upload_url: clone_opt_text(&self.upload_url),
            headers: clone_tags(&self.headers),
        }
    }
}

/// What is known of a piece of content.
#[derive(Debug, PartialEq, Eq)]
pub struct ContentMetadata {
    pub id: u128,
    pub tenant_id: TenantId,
    pub project_id: ProjectId,
    pub filename: String,
    pub mime_type: Option<String>,
    pub size_bytes: Option<u64>,
    pub checksum: Option<String>,
    pub storage_path: Option<String>,
    pub labels: Vec<String>,
    pub attributes: Vec<Tag>,
    pub created_at: Timestamp,
    pub updated_at: Timestamp,
    pub uploaded_by: Option<u128>,
    pub visibility: ContentVisibility,
}

/// The mathematical value of a [`ContentMetadata`].
pub struct ContentMetadataView {
    pub id: u128,
    pub tenant_id: TenantId,
    pub project_id: ProjectId,
    pub filename: Seq<char>,
    pub mime_type: Option<Seq<char>>,
    pub size_bytes: Option<u64>,
    pub checksum: Option<Seq<char>>,
    pub storage_path: Option<Seq<char>>,
    pub labels: Seq<Seq<char>>,
    pub attributes: Seq<TagView>,
    pub created_at: Timestamp,
    pub updated_at: Timestamp,
    pub uploaded_by: Option<u128>,
    pub visibility: ContentVisibility,
}

impl DeepView for ContentMetadata {
    type V = ContentMetadataView;

    open spec fn deep_view(&self) -> ContentMetadataView {
        ContentMetadataView {
            id: self.id,
            tenant_id: self.tenant_id,
            project_id: self.project_id,
            filename: self.filename@,
            mime_type: self.mime_type.deep_view(),
            size_bytes: self.size_bytes,
            checksum: self.checksum.deep_view(),
            storage_path: self.storage_path.deep_view(),
            labels: self.labels.deep_view(),
            attributes: self.attributes.deep_view(),
            created_at: self.created_at,
            updated_at: self.updated_at,
            uploaded_by: self.uploaded_by,
            visibility: self.visibility,
        }
    }
}

impl Clone for ContentMetadata {
    fn clone(&self) -> (copy: Self)
        ensures
            copy.deep_view() == self.deep_view(),
    {
        ContentMetadata {
            id: self.id,
            tenant_id: self.tenant_id,
            project_id: self.project_id,
            filename: self.filename.clone(),
            mime_type: clone_opt_text(&self.mime_type),
            size_bytes: self.size_bytes,
            checksum: clone_opt_text(&self.checksum),
            storage_path: clone_opt_text(&self.storage_path),
            labels: clone_texts(&self.labels),
            attributes: clone_tags(&self.attributes),
            created_at: self.created_at,
            updated_at: self.updated_at,
            uploaded_by: self.uploaded_by,
            visibility: self.visibility,
        }
    }
}

/// What a listing of content asks for.
#[derive(Debug, PartialEq, Eq)]
pub struct ContentQuery {
    pub tenant_id: TenantId,
    pub project_id: Option<u128>,
    pub search_term: Option<String>,
    pub tags: Vec<String>,
    pub limit: Option<u32>,
    pub offset: Option<u32>,
}

/// The mathematical value of a [`ContentQuery`].
pub struct ContentQueryView {
    pub tenant_id: TenantId,
    pub project_id: Option<u128>,
    pub search_term: Option<Seq<char>>,
    pub tags: Seq<Seq<char>>,
    pub limit: Option<u32>,
    pub offset: Option<u32>,
}

impl DeepView for ContentQuery {
    type V = ContentQueryView;

    open spec fn deep_view(&self) -> ContentQueryView {
        ContentQueryView {
            tenant_id: self.tenant_id,
            project_id: self.project_id,
            search_term: self.search_term.deep_view(),
            tags: self.tags.deep_view(),
            limit: self.limit,
            offset: self.offset,
        }
    }
}

impl Clone for ContentQuery {
    fn clone(&self) -> (copy: Self)
        ensures
            copy.deep_view() == self.deep_view(),
    {
        ContentQuery {
            tenant_id: self.tenant_id,
            project_id: self.project_id,
            search_term: clone_opt_text(&self.search_term),
            tags: clone_texts(&self.tags),
            limit: self.limit,
            offset: self.offset,
        }
    }
}


impl Record for UploadSession {
    open spec fn view_key(view: UploadSessionView) -> u128 {
        view.id
    }

    fn key(&self) -> (k: u128) {
        self.id
    }

    fn duplicate(&self) -> (copy: Self) {
        self.clone()
    }
}

impl Record for ContentMetadata {
    open spec fn view_key(view: ContentMetadataView) -> u128 {
        view.id
    }

    fn key(&self) -> (k: u128) {
        self.id
    }

    fn duplicate(&self) -> (copy: Self) {
        self.clone()
    }
}

/// Content is listed newest first.
impl Ranked for ContentMetadata {
    open spec fn view_before(a: ContentMetadataView, b: ContentMetadataView) -> bool {
        a.created_at >= b.created_at
    }

    fn before(&self, other: &Self) -> (r: bool) {
        self.created_at >= other.created_at
    }

    proof fn before_total(a: ContentMetadataView, b: ContentMetadataView) {
    }

    proof fn before_transitive(
        a: ContentMetadataView,
        b: ContentMetadataView,
        c: ContentMetadataView,
    ) {
    }
}

/// The query that asks for all content of no tenant.
pub open spec fn no_query() -> ContentQueryView {
    ContentQueryView {
        tenant_id: 0,
        project_id: None,
        search_term: None,
        tags: Seq::empty(),
        limit: None,
        offset: None,
    }
}

impl Default for ContentQuery {
    fn default() -> (query: Self)
        ensures
            query.deep_view() == no_query(),
    {
        let query = ContentQuery {
            tenant_id: 0,
            project_id: None,
            search_term: None,
            tags: Vec::new(),
            limit: None,
            offset: None,
        };
        assert(query.tags.deep_view() =~= Seq::empty());
        query
    }
}

/// Whether a tag holds `term`, in its key or in its value, whatever the case of its
/// letters. `term` is in lower case.
pub open spec fn tag_mentions(tag: TagView, term: Seq<char>) -> bool {
    has_fragment(lowered(tag.key), term) || has_fragment(lowered(tag.value), term)
}

/// Whether a piece of content holds `term`, in its filename or in one of its
/// attributes, whatever the case of its letters. `term` is in lower case.
pub open spec fn mentions(item: ContentMetadataView, term: Seq<char>) -> bool {
    has_fragment(lowered(item.filename), term) || exists|i: int|
        0 <= i < item.attributes.len() && tag_mentions(#[trigger] item.attributes[i], term)
}

/// Whether a piece of content carries every one of the tags as a label.
pub open spec fn labelled(item: ContentMetadataView, tags: Seq<Seq<char>>) -> bool {
    forall|i: int| 0 <= i < tags.len() ==> item.labels.contains(#[trigger] tags[i])
}

/// Whether a piece of content is what a query asks for: of its tenant, of its project
/// where it names one, holding its search term where it has one, and carrying all its
/// tags.
pub open spec fn content_matches(item: ContentMetadataView, query: ContentQueryView) -> bool {
    &&& item.tenant_id == query.tenant_id
    &&& query.project_id is Some ==> item.project_id == query.project_id->0
    &&& query.search_term is Some ==> mentions(item, lowered(query.search_term->0))
    &&& labelled(item, query.tags)
}

/// The content that a query asks for, in table order.
pub open spec fn found(rows: Seq<ContentMetadataView>, query: ContentQueryView) -> Seq<
    ContentMetadataView,
>
    decreases rows.len(),
{
    if rows.len() == 0 {
        Seq::empty()
    } else {
        let earlier = found(rows.drop_last(), query);
        if content_matches(rows.last(), query) {
            earlier.push(rows.last())
        } else {
            earlier
        }
    }
}

/// The listing that a query asks for: the content that matches, newest first and in
/// table order among content of the same instant, cut down to the page.
pub open spec fn content_listing(rows: Seq<ContentMetadataView>, query: ContentQueryView) -> Seq<
    ContentMetadataView,
> {
    page(arranged::<ContentMetadata>(found(rows, query)), query.offset, query.limit)
}

/// Whether a piece of content holds `term`, which is in lower case.
pub fn content_mentions(item: &ContentMetadata, term: &str) -> (r: bool)
    ensures
        r == mentions(item.deep_view(), term@),
{
    let filename = to_ascii_lower(item.filename.as_str());
    if contains_fragment(filename.as_str(), term) {
        return true;
    }
    let mut i: usize = 0;
    while i < item.attributes.len()
        invariant
            i <= item.attributes.len(),
            forall|j: int|
                0 <= j < i ==> !tag_mentions(#[trigger] item.attributes.deep_view()[j], term@),
        decreases item.attributes.len() - i,
    {
        let tag = &item.attributes[i];
        assert(item.attributes.deep_view()[i as int] == tag.deep_view());
        let key = to_ascii_lower(tag.key.as_str());
        let value = to_ascii_lower(tag.value.as_str());
        if contains_fragment(key.as_str(), term) || contains_fragment(value.as_str(), term) {
            assert(tag_mentions(item.deep_view().attributes[i as int], term@));
            return true;
        }
        i = i + 1;
    }
    false
}

/// Whether a list of labels holds a tag.
fn has_label(labels: &Vec<String>, tag: &str) -> (r: bool)
    ensures
        r == labels.deep_view().contains(tag@),
{
    let mut i: usize = 0;
    while i < labels.len()
        invariant
            i <= labels.len(),
            forall|j: int| 0 <= j < i ==> #[trigger] labels.deep_view()[j] != tag@,
        decreases labels.len() - i,
    {
        assert(labels.deep_view()[i as int] == labels@[i as int]@);
        if same_text(labels[i].as_str(), tag) {
            return true;
        }
        i = i + 1;
    }
    false
}

/// Whether a piece of content carries every one of the tags as a label.
pub fn content_labelled(item: &ContentMetadata, tags: &Vec<String>) -> (r: bool)
    ensures
        r == labelled(item.deep_view(), tags.deep_view()),
{
    let mut i: usize = 0;
    while i < tags.len()
        invariant
            i <= tags.len(),
            forall|j: int|
                0 <= j < i ==> item.labels.deep_view().contains(#[trigger] tags.deep_view()[j]),
        decreases tags.len() - i,
    {
        assert(tags.deep_view()[i as int] == tags@[i as int]@);
        if !has_label(&item.labels, tags[i].as_str()) {
            return false;
        }
        i = i + 1;
    }
    true
}

/// Whether a piece of content is what a query asks for.
pub fn content_meets(item: &ContentMetadata, query: &ContentQuery) -> (r: bool)
    ensures
        r == content_matches(item.deep_view(), query.deep_view()),
{
    if item.tenant_id != query.tenant_id {
        return false;
    }
    if let Some(project_id) = query.project_id {
        if item.project_id != project_id {
            return false;
        }
    }
    if let Some(term) = &query.search_term {
        let lower = to_ascii_lower(term.as_str());
        if !content_mentions(item, lower.as_str()) {
            return false;
        }
    }
    content_labelled(item, &query.tags)
}

/// The listing of the content that a query asks for.
pub fn list_content(rows: &Vec<ContentMetadata>, query: &ContentQuery) -> (listing: Vec<
    ContentMetadata,
>)
    ensures
        listing.deep_view() == content_listing(rows.deep_view(), query.deep_view()),
{
    let mut chosen: Vec<ContentMetadata> = Vec::new();
    let mut i: usize = 0;
    assert(rows.deep_view().take(0) =~= Seq::empty());
    assert(chosen.deep_view() =~= Seq::empty());
    while i < rows.len()
        invariant
            i <= rows.len(),
            chosen.deep_view() == arranged::<ContentMetadata>(
                found(rows.deep_view().take(i as int), query.deep_view()),
            ),
        decreases rows.len() - i,
    {
        proof {
            let views = rows.deep_view();
            assert(views.take(i + 1).drop_last() =~= views.take(i as int));
            assert(views.take(i + 1).last() == rows@[i as int].deep_view());
            let kept = found(views.take(i as int), query.deep_view());
            assert(kept.push(views[i as int]).drop_last() =~= kept);
        }
        if content_meets(&rows[i], query) {
            insert_ranked(&mut chosen, rows[i].clone());
        }
        i = i + 1;
    }
    assert(rows.deep_view().take(rows.len() as int) =~= rows.deep_view());
    page_rows(chosen, query.offset, query.limit)
}

} // verus!
