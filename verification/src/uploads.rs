//! The rules of the content routes of a gateway: who may open and complete an upload
//! session, what is stored when one does, and what a listing of content shows.
//!
//! A route answers with what it hands back or with a refusal. The caller says whether
//! the request holds the scope of the route, and which storage base address is set.
use vstd::prelude::*;
use vstd::string::StringExecFns;
use crate::content::{
    content_listing, ContentMetadata, ContentMetadataView, ContentQuery, ContentQueryView,
    UploadSession, UploadSessionView,
};
use crate::gateway::{
    admits, answer_view, counted_entries, refusal_of, window_of, HttpError, RateEntryView,
    RateLimiter,
};
use crate::ids::{id_text, random_id, uuid_text};
use crate::models::{
    clone_tags, upload_status_text, ContentVisibility, Tag, TagView, UploadStatus,
};
use crate::persistence::{
    create_upload_result, record_content_result, InMemoryPersistence, StoreView,
};
use crate::table::{lemma_position, lookup, push_row, put, replaced};
use crate::text::{blank, clone_opt_text, clone_texts, is_blank, join, trim_text, trimmed};
use crate::time::{after, clamp, now_millis, seconds, shifted, Timestamp};
use crate::wire::{natural_text, write_natural};

verus! {

/// What is asked for when an upload session is opened.
#[derive(Debug, PartialEq, Eq)]
pub struct CreateUploadRequest {
    pub filename: String,
    pub mime_type: Option<String>,
    pub size_bytes: Option<u64>,
    pub labels: Vec<String>,
    pub attributes: Vec<Tag>,
    pub visibility: ContentVisibility,
    pub expires_in_seconds: Option<i64>,
}

/// The mathematical value of a [`CreateUploadRequest`].
pub struct CreateUploadRequestView {
    pub filename: Seq<char>,
    pub mime_type: Option<Seq<char>>,
    pub size_bytes: Option<u64>,
    pub labels: Seq<Seq<char>>,
    pub attributes: Seq<TagView>,
    pub visibility: ContentVisibility,
    pub expires_in_seconds: Option<i64>,
}

impl DeepView for CreateUploadRequest {
    type V = CreateUploadRequestView;

    open spec fn deep_view(&self) -> CreateUploadRequestView {
        CreateUploadRequestView {
            filename: self.filename@,
            mime_type: self.mime_type.deep_view(),
            size_bytes: self.size_bytes,
            labels: self.labels.deep_view(),
            attributes: self.attributes.deep_view(),
            visibility: self.visibility,
            expires_in_seconds: self.expires_in_seconds,
        }
    }
}

impl Clone for CreateUploadRequest {
    fn clone(&self) -> (copy: Self)
        ensures
            copy.deep_view() == self.deep_view(),
    {
        CreateUploadRequest {
            filename: self.filename.clone(),
            mime_type: clone_opt_text(&self.mime_type),
            size_bytes: self.size_bytes,
            labels: clone_texts(&self.labels),
            attributes: clone_tags(&self.attributes),
            visibility: self.visibility,
            expires_in_seconds: self.expires_in_seconds,
        }
    }
}

/// What is said of the content when its upload is complete.
#[derive(Debug, PartialEq, Eq)]
pub struct CompleteUploadRequest {
    pub filename: String,
    pub mime_type: Option<String>,
    pub size_bytes: u64,
    pub checksum: Option<String>,
    pub storage_path: Option<String>,
    pub labels: Vec<String>,
    pub attributes: Vec<Tag>,
    pub uploaded_by: Option<u128>,
    pub visibility: ContentVisibility,
}

/// The mathematical value of a [`CompleteUploadRequest`].
pub struct CompleteUploadRequestView {
    pub filename: Seq<char>,
    pub mime_type: Option<Seq<char>>,
    pub size_bytes: u64,
    pub checksum: Option<Seq<char>>,
    pub storage_path: Option<Seq<char>>,
    pub labels: Seq<Seq<char>>,
    pub attributes: Seq<TagView>,
    pub uploaded_by: Option<u128>,
    pub visibility: ContentVisibility,
}

impl DeepView for CompleteUploadRequest {
    type V = CompleteUploadRequestView;

    open spec fn deep_view(&self) -> CompleteUploadRequestView {
        CompleteUploadRequestView {
            filename: self.filename@,
            mime_type: self.mime_type.deep_view(),
            size_bytes: self.size_bytes,
            checksum: self.checksum.deep_view(),
            storage_path: self.storage_path.deep_view(),
            labels: self.labels.deep_view(),
            attributes: self.attributes.deep_view(),
            uploaded_by: self.uploaded_by,
            visibility: self.visibility,
        }
    }
}

impl Clone for CompleteUploadRequest {
    fn clone(&self) -> (copy: Self)
        ensures
            copy.deep_view() == self.deep_view(),
    {
        CompleteUploadRequest {
            filename: self.filename.clone(),
            mime_type: clone_opt_text(&self.mime_type),
            size_bytes: self.size_bytes,
            checksum: clone_opt_text(&self.checksum),
            storage_path: clone_opt_text(&self.storage_path),
            labels: clone_texts(&self.labels),
            attributes: clone_tags(&self.attributes),
            uploaded_by: self.uploaded_by,
            visibility: self.visibility,
        }
    }
}

/// What the opening of an upload session hands back.
#[derive(Debug, PartialEq, Eq)]
pub struct UploadSessionResponse {
    pub upload_id: u128,
    pub content_id: u128,
    pub status: String,
    pub upload_url: Option<String>,
    pub storage_path: String,
    pub headers: Vec<Tag>,
    pub created_at: Timestamp,
    pub updated_at: Timestamp,
    pub expires_at: Option<Timestamp>,
}

/// The mathematical value of a [`UploadSessionResponse`].
pub struct UploadSessionResponseView {
    pub upload_id: u128,
    pub content_id: u128,
    pub status: Seq<char>,
    pub upload_url: Option<Seq<char>>,
    pub storage_path: Seq<char>,
    pub headers: Seq<TagView>,
    pub created_at: Timestamp,
    pub updated_at: Timestamp,
    pub expires_at: Option<Timestamp>,
}

impl DeepView for UploadSessionResponse {
    type V = UploadSessionResponseView;

    open spec fn deep_view(&self) -> UploadSessionResponseView {
        UploadSessionResponseView {
            upload_id: self.upload_id,
            content_id: self.content_id,
            status: self.status@,
            upload_url: self.upload_url.deep_view(),
            storage_path: self.storage_path@,
            headers: self.headers.deep_view(),
            created_at: self.created_at,
            updated_at: self.updated_at,
            expires_at: self.expires_at,
        }
    }
}

impl Clone for UploadSessionResponse {
    fn clone(&self) -> (copy: Self)
        ensures
            copy.deep_view() == self.deep_view(),
    {
        UploadSessionResponse {
            upload_id: self.upload_id,
            content_id: self.content_id,
            status: self.status.clone(),
            upload_url: clone_opt_text(&self.upload_url),
            storage_path: self.storage_path.clone(),
            headers: clone_tags(&self.headers),
            created_at: self.created_at,
            updated_at: self.updated_at,
            expires_at: self.expires_at,
        }
    }
}

/// What a listing of the content of a project asks for.
#[derive(Debug, PartialEq, Eq)]
pub struct ListContentParams {
    pub search: Option<String>,
    pub tags: Vec<String>,
    pub limit: Option<u32>,
    pub offset: Option<u32>,
}

/// The mathematical value of a [`ListContentParams`].
pub struct ListContentParamsView {
    pub search: Option<Seq<char>>,
    pub tags: Seq<Seq<char>>,
    pub limit: Option<u32>,
    pub offset: Option<u32>,
}

impl DeepView for ListContentParams {
    type V = ListContentParamsView;

    open spec fn deep_view(&self) -> ListContentParamsView {
        ListContentParamsView {
            search: self.search.deep_view(),
            tags: self.tags.deep_view(),
            limit: self.limit,
            offset: self.offset,
        }
    }
}

impl Clone for ListContentParams {
    fn clone(&self) -> (copy: Self)
        ensures
            copy.deep_view() == self.deep_view(),
    {
        ListContentParams {
            search: clone_opt_text(&self.search),
            tags: clone_texts(&self.tags),
            limit: self.limit,
            offset: self.offset,
        }
    }
}


/// Where a piece of content is stored: under its tenant, its project and its own
/// identifier, by its filename without the whitespace at its ends.
pub open spec fn storage_path(tenant_id: u128, project_id: u128, content_id: u128, filename: Seq<char>)
    -> Seq<char> {
    "tenants/"@ + uuid_text(tenant_id) + "/projects/"@ + uuid_text(project_id) + "/"@ + uuid_text(
        content_id,
    ) + "/"@ + trimmed(filename)
}

/// The address of a path: under the storage base address where one is set and not
/// blank, and `otherwise` where none is.
pub open spec fn upload_target(base: Option<Seq<char>>, path: Seq<char>, otherwise: Seq<char>)
    -> Seq<char> {
    if base is Some && !is_blank(base->0) {
        base->0 + "/"@ + path
    } else {
        otherwise
    }
}

/// The headers that an upload is to carry: its content type where one is given, then
/// its length where one is given.
pub open spec fn upload_headers(mime_type: Option<Seq<char>>, size_bytes: Option<u64>) -> Seq<
    TagView,
> {
    let kind = match mime_type {
        Some(mime) => seq![TagView { key: "content-type"@, value: mime }],
        None => Seq::empty(),
    };
    let length = match size_bytes {
        Some(size) => seq![TagView { key: "content-length"@, value: natural_text(size as nat) }],
        None => Seq::empty(),
    };
    kind + length
}

/// When a session opened at `now` expires: after the seconds asked for, where they are
/// more than none.
pub open spec fn expiry(now: Timestamp, expires_in_seconds: Option<i64>) -> Option<Timestamp> {
    match expires_in_seconds {
        Some(secs) => if secs > 0 {
            Some(shifted(now as int, clamp(secs * 1000)) as i64)
        } else {
            None
        },
        None => None,
    }
}

/// The session that a request opens at `now`.
pub open spec fn opened_session(
    tenant_id: u128,
    project_id: u128,
    payload: CreateUploadRequestView,
    base: Option<Seq<char>>,
    now: Timestamp,
    content_id: u128,
    upload_id: u128,
) -> UploadSessionView {
    let path = storage_path(tenant_id, project_id, content_id, payload.filename);
    UploadSessionView {
        id: upload_id,
        tenant_id,
        project_id,
        content_id,
        status: UploadStatus::Pending,
        created_at: now,
        updated_at: now,
        expires_at: expiry(now, payload.expires_in_seconds),
        upload_url: Some(upload_target(base, path, "s3://cassandranet/"@ + path)),
        headers: upload_headers(payload.mime_type, payload.size_bytes),
    }
}

/// What is handed back of a session stored under a path.
pub open spec fn session_response(session: UploadSessionView, path: Seq<char>)
    -> UploadSessionResponseView {
    UploadSessionResponseView {
        upload_id: session.id,
        content_id: session.content_id,
        status: upload_status_text(session.status),
        upload_url: session.upload_url,
        storage_path: path,
        headers: session.headers,
        created_at: session.created_at,
        updated_at: session.updated_at,
        expires_at: session.expires_at,
    }
}

/// What opening an upload session does. A request without a filename is refused with
/// 400; one without the scope with 403. Any other request is counted against sixty a
/// minute for its tenant and refused with 429 beyond them. The session is then stored,
/// or the refusal of the store handed back.
pub open spec fn create_upload_post(
    s0: StoreView,
    l0: Seq<RateEntryView>,
    tenant_id: u128,
    project_id: u128,
    allowed: bool,
    payload: CreateUploadRequestView,
    base: Option<Seq<char>>,
    now: Timestamp,
    tick: u64,
    content_id: u128,
    upload_id: u128,
    s1: StoreView,
    l1: Seq<RateEntryView>,
    r: Result<UploadSessionResponseView, HttpError>,
) -> bool {
    if is_blank(payload.filename) {
        r == Err::<UploadSessionResponseView, HttpError>(
            HttpError { status: 400, message: "filename required" },
        ) && s1 == s0 && l1 == l0
    } else if !allowed {
        r == Err::<UploadSessionResponseView, HttpError>(
            HttpError { status: 403, message: "scope required" },
        ) && s1 == s0 && l1 == l0
    } else {
        let route = "ugc:create_upload"@;
        let session = opened_session(
            tenant_id,
            project_id,
            payload,
            base,
            now,
            content_id,
            upload_id,
        );
        &&& l1 == counted_entries(l0, tenant_id, route, tick, 60, 60_000)
        &&& if !admits(window_of(l0, tenant_id, route, tick), tick, 60, 60_000) {
            r == Err::<UploadSessionResponseView, HttpError>(
                HttpError { status: 429, message: "rate limit exceeded" },
            ) && s1 == s0
        } else {
            match create_upload_result(s0, session) {
                Err(e) => r == Err::<UploadSessionResponseView, HttpError>(refusal_of(e)) && s1
                    == s0,
                Ok(_) => r == Ok::<UploadSessionResponseView, HttpError>(
                    session_response(
                        session,
                        storage_path(tenant_id, project_id, content_id, payload.filename),
                    ),
                ) && s1 == (StoreView { uploads: s0.uploads.push(session), ..s0 }),
            }
        }
    }
}

/// Why a session cannot be completed at `now` by a request for a tenant and a project:
/// 404 where there is none, 403 where it is of another tenant or project, 410 where it
/// has expired, 400 where it is neither pending nor uploading.
pub open spec fn session_refusal(
    session: Option<UploadSessionView>,
    tenant_id: u128,
    project_id: u128,
    now: Timestamp,
) -> Option<HttpError> {
    match session {
        None => Some(HttpError { status: 404, message: "upload session not found" }),
        Some(found) => if found.tenant_id != tenant_id || found.project_id != project_id {
            Some(HttpError { status: 403, message: "upload session scope mismatch" })
        } else if found.expires_at is Some && found.expires_at->0 < now {
            Some(HttpError { status: 410, message: "upload session expired" })
        } else if found.status != UploadStatus::Pending && found.status
            != UploadStatus::Uploading {
            Some(HttpError { status: 400, message: "upload session closed" })
        } else {
            None
        },
    }
}

/// Where completed content is stored: where the request says, or under its tenant, its
/// project and its identifier where it says nothing.
pub open spec fn final_path(
    payload: CompleteUploadRequestView,
    tenant_id: u128,
    project_id: u128,
    content_id: u128,
) -> Seq<char> {
    match payload.storage_path {
        Some(path) => path,
        None => storage_path(tenant_id, project_id, content_id, payload.filename),
    }
}

/// A session completed at `now`, its content stored under `path`.
pub open spec fn completed_session(
    session: UploadSessionView,
    base: Option<Seq<char>>,
    path: Seq<char>,
    now: Timestamp,
) -> UploadSessionView {
    UploadSessionView {
        status: UploadStatus::Completed,
        updated_at: now,
        upload_url: Some(upload_target(base, path, path)),
        ..session
    }
}

/// What is known of the content of a session completed at `now`.
pub open spec fn completed_content(
    session: UploadSessionView,
    payload: CompleteUploadRequestView,
    path: Seq<char>,
    now: Timestamp,
) -> ContentMetadataView {
    ContentMetadataView {
        id: session.content_id,
        tenant_id: session.tenant_id,
        project_id: session.project_id,
        filename: payload.filename,
        mime_type: payload.mime_type,
        size_bytes: Some(payload.size_bytes),
        checksum: payload.checksum,
        storage_path: Some(path),
        labels: payload.labels,
        attributes: payload.attributes,
        created_at: now,
        updated_at: now,
        uploaded_by: payload.uploaded_by,
        visibility: payload.visibility,
    }
}

/// What completing an upload session does. A request without the scope is refused with
/// 403. Any other request is counted against a hundred and twenty a minute for its
/// tenant and refused with 429 beyond them. Where the session can be completed it is
/// stored as completed; what is known of its content is then recorded, or the refusal of
/// the store handed back.
pub open spec fn complete_upload_post(
    s0: StoreView,
    l0: Seq<RateEntryView>,
    tenant_id: u128,
    project_id: u128,
    upload_id: u128,
    allowed: bool,
    payload: CompleteUploadRequestView,
    base: Option<Seq<char>>,
    now: Timestamp,
    tick: u64,
    s1: StoreView,
    l1: Seq<RateEntryView>,
    r: Result<ContentMetadataView, HttpError>,
) -> bool {
    if !allowed {
        r == Err::<ContentMetadataView, HttpError>(
            HttpError { status: 403, message: "scope required" },
        ) && s1 == s0 && l1 == l0
    } else {
        let route = "ugc:complete_upload"@;
        &&& l1 == counted_entries(l0, tenant_id, route, tick, 120, 60_000)
        &&& if !admits(window_of(l0, tenant_id, route, tick), tick, 120, 60_000) {
            r == Err::<ContentMetadataView, HttpError>(
                HttpError { status: 429, message: "rate limit exceeded" },
            ) && s1 == s0
        } else {
            let known = lookup::<UploadSession>(s0.uploads, upload_id);
            match session_refusal(known, tenant_id, project_id, now) {
                Some(refusal) => r == Err::<ContentMetadataView, HttpError>(refusal) && s1 == s0,
                None => {
                    let session = known->0;
                    let path = final_path(payload, tenant_id, project_id, session.content_id);
                    let content = completed_content(session, payload, path, now);
                    let stored = StoreView {
                        uploads: replaced::<UploadSession>(
                            s0.uploads,
                            completed_session(session, base, path, now),
                        ),
                        ..s0
                    };
                    match record_content_result(stored, content) {
                        Err(e) => r == Err::<ContentMetadataView, HttpError>(refusal_of(e)) && s1
                            == stored,
                        Ok(_) => r == Ok::<ContentMetadataView, HttpError>(content) && s1 == (
                        StoreView {
                            content: put::<ContentMetadata>(stored.content, content),
                            ..stored
                        }),
                    }
                },
            }
        }
    }
}

/// The query that a listing of the content of a project makes.
pub open spec fn content_query(tenant_id: u128, project_id: u128, params: ListContentParamsView)
    -> ContentQueryView {
    ContentQueryView {
        tenant_id,
        project_id: Some(project_id),
        search_term: params.search,
        tags: params.tags,
        limit: params.limit,
        offset: params.offset,
    }
}

/// What listing the content of a project does. A request without the scope is refused
/// with 403. Any other request is counted against a hundred and twenty a minute for its
/// tenant and refused with 429 beyond them, and else answered with the listing.
pub open spec fn list_content_post(
    store: StoreView,
    l0: Seq<RateEntryView>,
    tenant_id: u128,
    project_id: u128,
    allowed: bool,
    params: ListContentParamsView,
    tick: u64,
    l1: Seq<RateEntryView>,
    r: Result<Seq<ContentMetadataView>, HttpError>,
) -> bool {
    if !allowed {
        r == Err::<Seq<ContentMetadataView>, HttpError>(
            HttpError { status: 403, message: "scope required" },
        ) && l1 == l0
    } else {
        let route = "ugc:list_content"@;
        &&& l1 == counted_entries(l0, tenant_id, route, tick, 120, 60_000)
        &&& if !admits(window_of(l0, tenant_id, route, tick), tick, 120, 60_000) {
            r == Err::<Seq<ContentMetadataView>, HttpError>(
                HttpError { status: 429, message: "rate limit exceeded" },
            )
        } else {
            r == Ok::<Seq<ContentMetadataView>, HttpError>(
                content_listing(store.content, content_query(tenant_id, project_id, params)),
            )
        }
    }
}

/// Where a piece of content is stored.
pub fn build_storage_path(tenant_id: u128, project_id: u128, content_id: u128, filename: &str) -> (path:
    String)
    ensures
        path@ == storage_path(tenant_id, project_id, content_id, filename@),
{
    let tenant = id_text(tenant_id);
    let project = id_text(project_id);
    let content = id_text(content_id);
    let name = trim_text(filename);
    String::from_str("tenants/").concat(tenant.as_str()).concat("/projects/").concat(
        project.as_str(),
    ).concat("/").concat(content.as_str()).concat("/").concat(name.as_str())
}

/// The address of a path: under the storage base address where one is set and not
/// blank, and `otherwise` where none is.
pub fn upload_url(base: Option<&str>, path: &str, otherwise: String) -> (url: String)
    ensures
        url@ == upload_target(base.deep_view(), path@, otherwise@),
{
    match base {
        Some(address) => {
            if blank(address) {
                otherwise
            } else {
                String::from_str(address).concat("/").concat(path)
            }
        },
        None => otherwise,
    }
}

/// What is handed back of a session stored under a path.
pub fn from_session(session: &UploadSession, storage_path: String) -> (response:
    UploadSessionResponse)
    ensures
        response.deep_view() == session_response(session.deep_view(), storage_path@),
{
    UploadSessionResponse {
        upload_id: session.id,
        content_id: session.content_id,
        status: String::from_str(session.status.as_str()),
        upload_url: clone_opt_text(&session.upload_url),
        storage_path,
        headers: clone_tags(&session.headers),
        created_at: session.created_at,
        updated_at: session.updated_at,
        expires_at: session.expires_at,
    }
}

/// Opens an upload session at `now` under the given identifiers; `tick` is the reading
/// of the clock of the rate limiter.
pub fn create_upload_session_with(
    store: &mut InMemoryPersistence,
    limiter: &mut RateLimiter,
    tenant_id: u128,
    project_id: u128,
    allowed: bool,
    payload: &CreateUploadRequest,
    base: Option<&str>,
    now: Timestamp,
    tick: u64,
    content_id: u128,
    upload_id: u128,
) -> (r: Result<UploadSessionResponse, HttpError>)
    requires
        old(store).wf(),
    ensures
        final(store).wf(),
        create_upload_post(
            old(store)@,
            old(limiter)@,
            tenant_id,
            project_id,
            allowed,
            payload.deep_view(),
            base.deep_view(),
            now,
            tick,
            content_id,
            upload_id,
            final(store)@,
            final(limiter)@,
            answer_view(r),
        ),
{
    if blank(payload.filename.as_str()) {
        return Err(HttpError::new(400, "filename required"));
    }
    if !allowed {
        return Err(HttpError::new(403, "scope required"));
    }
    if !limiter.check_and_increment_at(tenant_id, "ugc:create_upload", 60, 60_000, tick) {
        return Err(HttpError::new(429, "rate limit exceeded"));
    }
    let path = build_storage_path(tenant_id, project_id, content_id, payload.filename.as_str());
    let url = upload_url(base, path.as_str(), join("s3://cassandranet/", path.as_str()));
    let expires_at = match payload.expires_in_seconds {
        Some(secs) => if secs > 0 {
            Some(after(now, seconds(secs)))
        } else {
            None
        },
        None => None,
    };
    let mut headers: Vec<Tag> = Vec::new();
    assert(headers.deep_view() =~= Seq::empty());
    if let Some(mime) = &payload.mime_type {
        push_row(
            &mut headers,
            Tag { key: String::from_str("content-type"), value: mime.clone() },
        );
    }
    if let Some(size) = payload.size_bytes {
        let mut digits = String::new();
        write_natural(&mut digits, size);
        assert(digits@ =~= natural_text(size as nat));
        push_row(&mut headers, Tag { key: String::from_str("content-length"), value: digits });
    }
    assert(headers.deep_view() =~= upload_headers(
        payload.deep_view().mime_type,
        payload.size_bytes,
    ));
    let session = UploadSession {
        id: upload_id,
        tenant_id,
        project_id,
        content_id,
        status: UploadStatus::Pending,
        created_at: now,
        updated_at: now,
        expires_at,
        upload_url: Some(url),
        headers,
    };
    let response = from_session(&session, path);
    match store.create_upload_session(session) {
        Err(e) => Err(HttpError::from(e)),
        Ok(()) => Ok(response),
    }
}

/// Opens an upload session now, under identifiers drawn at random.
pub fn create_upload_session(
    store: &mut InMemoryPersistence,
    limiter: &mut RateLimiter,
    tenant_id: u128,
    project_id: u128,
    allowed: bool,
    payload: &CreateUploadRequest,
    base: Option<&str>,
) -> (r: Result<UploadSessionResponse, HttpError>)
    requires
        old(store).wf(),
    ensures
        final(store).wf(),
        exists|now: Timestamp, tick: u64, content_id: u128, upload_id: u128|
            create_upload_post(
                old(store)@,
                old(limiter)@,
                tenant_id,
                project_id,
                allowed,
                payload.deep_view(),
                base.deep_view(),
                now,
                tick,
                content_id,
                upload_id,
                final(store)@,
                final(limiter)@,
                answer_view(r),
            ),
{
    let now = now_millis();
    let tick = limiter.tick();
    let content_id = random_id();
    let upload_id = random_id();
    create_upload_session_with(
        store,
        limiter,
        tenant_id,
        project_id,
        allowed,
        payload,
        base,
        now,
        tick,
        content_id,
        upload_id,
    )
}

/// Why a session cannot be completed at `now` by a request for a tenant and a project.
pub fn check_session(
    session: &Option<UploadSession>,
    tenant_id: u128,
    project_id: u128,
    now: Timestamp,
) -> (refusal: Option<HttpError>)
    ensures
        refusal == session_refusal(session.deep_view(), tenant_id, project_id, now),
{
    match session {
        None => Some(HttpError::new(404, "upload session not found")),
        Some(found) => {
            if found.tenant_id != tenant_id || found.project_id != project_id {
                return Some(HttpError::new(403, "upload session scope mismatch"));
            }
            if let Some(expires_at) = found.expires_at {
                if expires_at < now {
                    return Some(HttpError::new(410, "upload session expired"));
                }
            }
            match found.status {
                UploadStatus::Pending => None,
                UploadStatus::Uploading => None,
                _ => Some(HttpError::new(400, "upload session closed")),
            }
        },
    }
}

/// Completes an upload session at `now`; `tick` is the reading of the clock of the rate
/// limiter.
pub fn complete_upload_session_at(
    store: &mut InMemoryPersistence,
    limiter: &mut RateLimiter,
    tenant_id: u128,
    project_id: u128,
    upload_id: u128,
    allowed: bool,
    payload: CompleteUploadRequest,
    base: Option<&str>,
    now: Timestamp,
    tick: u64,
) -> (r: Result<ContentMetadata, HttpError>)
    requires
        old(store).wf(),
    ensures
        final(store).wf(),
        complete_upload_post(
            old(store)@,
            old(limiter)@,
            tenant_id,
            project_id,
            upload_id,
            allowed,
            payload.deep_view(),
            base.deep_view(),
            now,
            tick,
            final(store)@,
            final(limiter)@,
            answer_view(r),
        ),
{
    if !allowed {
        return Err(HttpError::new(403, "scope required"));
    }
    if !limiter.check_and_increment_at(tenant_id, "ugc:complete_upload", 120, 60_000, tick) {
        return Err(HttpError::new(429, "rate limit exceeded"));
    }
    let known = match store.get_upload_session(upload_id) {
        Ok(known) => known,
        Err(e) => {
            return Err(HttpError::from(e));
        },
    };
    if let Some(refusal) = check_session(&known, tenant_id, project_id, now) {
        return Err(refusal);
    }
    let session = known.unwrap();
    let ghost asked = payload.deep_view();
    let ghost before = session.deep_view();
    let path = match &payload.storage_path {
        Some(path) => path.clone(),
        None => build_storage_path(
            tenant_id,
            project_id,
            session.content_id,
            payload.filename.as_str(),
        ),
    };
    let url = upload_url(base, path.as_str(), path.clone());
    let content_id = session.content_id;
    let done = UploadSession {
        id: session.id,
        tenant_id: session.tenant_id,
        project_id: session.project_id,
        content_id: session.content_id,
        status: UploadStatus::Completed,
        created_at: session.created_at,
        updated_at: now,
        expires_at: session.expires_at,
        upload_url: Some(url),
        headers: session.headers,
    };
    proof {
        lemma_position::<UploadSession>(store@.uploads, upload_id);
    }
    match store.update_upload_session(done) {
        Ok(()) => {},
        Err(e) => {
            return Err(HttpError::from(e));
        },
    }
    let metadata = ContentMetadata {
        id: content_id,
        tenant_id,
        project_id,
        filename: payload.filename,
        mime_type: payload.mime_type,
        size_bytes: Some(payload.size_bytes),
        checksum: payload.checksum,
        storage_path: Some(path),
        labels: payload.labels,
        attributes: payload.attributes,
        created_at: now,
        updated_at: now,
        uploaded_by: payload.uploaded_by,
        visibility: payload.visibility,
    };
    assert(metadata.deep_view() == completed_content(before, asked, path@, now));
    let copy = metadata.clone();
    match store.record_content_metadata(metadata) {
        Ok(()) => Ok(copy),
        Err(e) => Err(HttpError::from(e)),
    }
}

/// Completes an upload session now.
pub fn complete_upload_session(
    store: &mut InMemoryPersistence,
    limiter: &mut RateLimiter,
    tenant_id: u128,
    project_id: u128,
    upload_id: u128,
    allowed: bool,
    payload: CompleteUploadRequest,
    base: Option<&str>,
) -> (r: Result<ContentMetadata, HttpError>)
    requires
        old(store).wf(),
    ensures
        final(store).wf(),
        exists|now: Timestamp, tick: u64|
            complete_upload_post(
                old(store)@,
                old(limiter)@,
                tenant_id,
                project_id,
                upload_id,
                allowed,
                payload.deep_view(),
                base.deep_view(),
                now,
                tick,
                final(store)@,
                final(limiter)@,
                answer_view(r),
            ),
{
    let now = now_millis();
    let tick = limiter.tick();
    complete_upload_session_at(
        store,
        limiter,
        tenant_id,
        project_id,
        upload_id,
        allowed,
        payload,
        base,
        now,
        tick,
    )
}

/// Lists the content of a project now.
pub fn list_content_metadata(
    store: &InMemoryPersistence,
    limiter: &mut RateLimiter,
    tenant_id: u128,
    project_id: u128,
    allowed: bool,
    params: ListContentParams,
) -> (r: Result<Vec<ContentMetadata>, HttpError>)
    ensures
        exists|tick: u64|
            list_content_post(
                store@,
                old(limiter)@,
                tenant_id,
                project_id,
                allowed,
                params.deep_view(),
                tick,
                final(limiter)@,
                answer_view(r),
            ),
{
    let tick = limiter.tick();
    list_content_metadata_at(store, limiter, tenant_id, project_id, allowed, params, tick)
}

/// Lists the content of a project; `tick` is the reading of the clock of the rate
/// limiter.
pub fn list_content_metadata_at(
    store: &InMemoryPersistence,
    limiter: &mut RateLimiter,
    tenant_id: u128,
    project_id: u128,
    allowed: bool,
    params: ListContentParams,
    tick: u64,
) -> (r: Result<Vec<ContentMetadata>, HttpError>)
    ensures
        list_content_post(
            store@,
            old(limiter)@,
            tenant_id,
            project_id,
            allowed,
            params.deep_view(),
            tick,
            final(limiter)@,
            answer_view(r),
        ),
{
    if !allowed {
        return Err(HttpError::new(403, "scope required"));
    }
    if !limiter.check_and_increment_at(tenant_id, "ugc:list_content", 120, 60_000, tick) {
        return Err(HttpError::new(429, "rate limit exceeded"));
    }
    let query = ContentQuery {
        tenant_id,
        project_id: Some(project_id),
        search_term: params.search,
        tags: params.tags,
        limit: params.limit,
        offset: params.offset,
    };
    match store.list_content_metadata(&query) {
        Ok(listing) => Ok(listing),
        Err(e) => Err(HttpError::from(e)),
    }
}

} // verus!
