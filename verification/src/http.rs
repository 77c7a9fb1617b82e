//! The request/response rules of the service, as a function from the catalog
//! and a request to the next catalog and a response.
//!
//! A request arrives here already taken apart: the route decides the variant,
//! the path gives the identifier, the body gives name and price. The response
//! carries a status code and plain values; turning them into bytes is left to
//! the transport.

use crate::catalog::{Catalog, CatalogError, CatalogView};
use crate::item::{item_views, valid_fields, ItemView, MenuItem};
use vstd::prelude::*;

verus! {

pub const OK: u16 = 200;

pub const CREATED: u16 = 201;

pub const NO_CONTENT: u16 = 204;

pub const BAD_REQUEST: u16 = 400;

pub const NOT_FOUND: u16 = 404;

/// A request to the menu routes.
#[derive(Debug, PartialEq, Eq)]
pub enum Request {
    /// `GET /menu`
    List,
    /// `GET /menu/{id}`
    Get { id: u64 },
    /// `POST /menu` with a body of name and price
    Create { name: String, price: i64 },
    /// `PUT /menu/{id}` with a body of name and price
    Update { id: u64, name: String, price: i64 },
    /// `DELETE /menu/{id}`
    Delete { id: u64 },
}

/// The mathematical value of a request.
pub enum RequestView {
    List,
    Get { id: int },
    Create { name: Seq<char>, price: int },
    Update { id: int, name: Seq<char>, price: int },
    Delete { id: int },
}

impl View for Request {
    type V = RequestView;

    open spec fn view(&self) -> RequestView {
        match *self {
            Request::List => RequestView::List,
            Request::Get { id } => RequestView::Get { id: id as int },
            Request::Create { name, price } => RequestView::Create {
                name: name@,
                price: price as int,
            },
            Request::Update { id, name, price } => RequestView::Update {
                id: id as int,
                name: name@,
                price: price as int,
            },
            Request::Delete { id } => RequestView::Delete { id: id as int },
        }
    }
}

/// What a response carries besides its status.
#[derive(Debug, PartialEq, Eq)]
pub enum Body {
    Empty,
    Item(MenuItem),
    Items(Vec<MenuItem>),
    Error(CatalogError),
}

/// The mathematical value of a response body.
pub enum BodyView {
    Empty,
    Item(ItemView),
    Items(Seq<ItemView>),
    Error(CatalogError),
}

impl View for Body {
    type V = BodyView;

    open spec fn view(&self) -> BodyView {
        match *self {
            Body::Empty => BodyView::Empty,
            Body::Item(item) => BodyView::Item(item@),
            Body::Items(items) => BodyView::Items(item_views(items@)),
            Body::Error(e) => BodyView::Error(e),
        }
    }
}

/// A response: status code and body.
#[derive(Debug, PartialEq, Eq)]
pub struct Response {
    pub status: u16,
    pub body: Body,
}

/// The mathematical value of a response.
pub struct ResponseView {
    pub status: int,
    pub body: BodyView,
}

impl View for Response {
    type V = ResponseView;

    open spec fn view(&self) -> ResponseView {
        ResponseView { status: self.status as int, body: self.body@ }
    }
}

impl RequestView {
    /// Whether the request only reads the catalog.
    pub open spec fn reads_only(self) -> bool {
        self is List || self is Get
    }
}

/// The status code under which an error is reported.
pub open spec fn error_status(e: CatalogError) -> int {
    match e {
        CatalogError::Validation => 400,
        CatalogError::NotFound => 404,
    }
}

/// The response that reports `e`.
pub open spec fn failure(e: CatalogError) -> ResponseView {
    ResponseView { status: error_status(e), body: BodyView::Error(e) }
}

/// The response owed to `request` by a service whose catalog is `c`.
/// Fields are validated before the identifier is looked up.
pub open spec fn reply(c: CatalogView, request: RequestView) -> ResponseView {
    match request {
        RequestView::List => ResponseView { status: 200, body: BodyView::Items(c.items) },
        RequestView::Get { id } => match c.lookup(id) {
            Some(item) => ResponseView { status: 200, body: BodyView::Item(item) },
            None => failure(CatalogError::NotFound),
        },
        RequestView::Create { name, price } => if valid_fields(name, price) {
            ResponseView {
                status: 201,
                body: BodyView::Item(ItemView { id: c.next_id, name, price }),
            }
        } else {
            failure(CatalogError::Validation)
        },
        RequestView::Update { id, name, price } => if !valid_fields(name, price) {
            failure(CatalogError::Validation)
        } else if c.has(id) {
            ResponseView { status: 200, body: BodyView::Item(ItemView { id, name, price }) }
        } else {
            failure(CatalogError::NotFound)
        },
        RequestView::Delete { id } => if c.has(id) {
            ResponseView { status: 204, body: BodyView::Empty }
        } else {
            failure(CatalogError::NotFound)
        },
    }
}

/// The catalog that `request` leaves behind.
pub open spec fn next_catalog(c: CatalogView, request: RequestView) -> CatalogView {
    match request {
        RequestView::List => c,
        RequestView::Get { id } => c,
        RequestView::Create { name, price } => c.created(name, price),
        RequestView::Update { id, name, price } => c.updated(id, name, price),
        RequestView::Delete { id } => c.removed(id),
    }
}

/// A request that is refused, and a request that only reads, leave the
/// catalog exactly as it was.
pub proof fn law_refusal_changes_nothing(c: CatalogView, request: RequestView)
    requires
        c.wf(),
    ensures
        reply(c, request).status >= 400 ==> next_catalog(c, request) == c,
        request.reads_only() ==> next_catalog(c, request) == c,
{
}

/// The status code under which `e` is reported.
pub fn status_of(e: CatalogError) -> (status: u16)
    ensures
        status == error_status(e),
{
    match e {
        CatalogError::Validation => BAD_REQUEST,
        CatalogError::NotFound => NOT_FOUND,
    }
}

/// The response that reports `e`.
pub fn refuse(e: CatalogError) -> (response: Response)
    ensures
        response@ == failure(e),
{
    Response { status: status_of(e), body: Body::Error(e) }
}

/// The answer to `GET /menu`.
fn listing(catalog: &Catalog) -> (response: Response)
    ensures
        response@ == reply(catalog@, RequestView::List),
{
    Response { status: OK, body: Body::Items(catalog.list()) }
}

/// The answer to `GET /menu/{id}`.
fn showing(catalog: &Catalog, id: u64) -> (response: Response)
    requires
        catalog.wf(),
    ensures
        response@ == reply(catalog@, RequestView::Get { id: id as int }),
{
    match catalog.get(id) {
        Ok(item) => Response { status: OK, body: Body::Item(item) },
        Err(e) => refuse(e),
    }
}

/// Serves a request that only reads, under shared access to the catalog, so
/// that readers need not wait for one another. A request that would change
/// the catalog is not served here and gets `None`.
pub fn handle_read(catalog: &Catalog, request: &Request) -> (response: Option<Response>)
    requires
        catalog.wf(),
    ensures
        match response {
            Some(r) => request@.reads_only() && r@ == reply(catalog@, request@),
            None => !request@.reads_only(),
        },
{
    match request {
        Request::List => Some(listing(catalog)),
        Request::Get { id } => Some(showing(catalog, *id)),
        _ => None,
    }
}

/// Serves one request under exclusive access to the catalog: performs at
/// most one operation on it and says what to answer.
pub fn handle(catalog: &mut Catalog, request: Request) -> (response: Response)
    requires
        old(catalog).wf(),
        request is Create ==> old(catalog).has_spare_id(),
    ensures
        final(catalog).wf(),
        final(catalog)@ == next_catalog(old(catalog)@, request@),
        response@ == reply(old(catalog)@, request@),
{
    match request {
        Request::List => listing(catalog),
        Request::Get { id } => showing(catalog, id),
        Request::Create { name, price } => match catalog.create(name, price) {
            Ok(item) => Response { status: CREATED, body: Body::Item(item) },
            Err(e) => refuse(e),
        },
        Request::Update { id, name, price } => match catalog.update(id, name, price) {
            Ok(item) => Response { status: OK, body: Body::Item(item) },
            Err(e) => refuse(e),
        },
        Request::Delete { id } => match catalog.delete(id) {
            Ok(_) => Response { status: NO_CONTENT, body: Body::Empty },
            Err(e) => refuse(e),
        },
    }
}

} // verus!
