use vstd::prelude::*;

verus! {

/// The envelope every successful response is wrapped in.
pub struct ResponseBody<T> {
    pub message: String,
    pub data: T,
}

impl<T> ResponseBody<T> {
    pub fn new(message: &str, data: T) -> (r: ResponseBody<T>)
        ensures
            r.message@ == message@,
            r.data == data,
    {
        ResponseBody { message: message.to_owned(), data }
    }
}

/// A paginated collection response.
pub struct Page<T> {
    pub message: String,
    pub data: Vec<T>,
    pub page_num: i64,
    pub page_size: i64,
    pub total_elements: i64,
}

impl<T> Page<T> {
    pub fn new(
        message: &str,
        data: Vec<T>,
        page_num: i64,
        page_size: i64,
        total_elements: i64,
    ) -> (r: Page<T>)
        ensures
            r.message@ == message@,
            r.data == data,
            r.page_num == page_num,
            r.page_size == page_size,
            r.total_elements == total_elements,
    {
        Page { message: message.to_owned(), data, page_num, page_size, total_elements }
    }
}

/// Response shape for a deleted task: how many rows went away.
pub struct TodoTaskDeletedResponse {
    pub message: String,
    pub data: i32,
}

/// Response shape for a deleted list: how many rows went away.
pub struct TodoListDeletedResponse {
    pub message: String,
    pub data: i32,
}

/// Error envelope for a request without a credential header.
pub struct TokenMissingResponse {
    pub data: String,
    pub message: String,
}

/// Error envelope for an internal failure.
pub struct InternalServerErrorResponse {
    pub message: String,
}

/// Error envelope for a malformed request.
pub struct BadRequestResponse {
    pub message: String,
}

} // verus!
