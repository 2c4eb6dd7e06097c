use vstd::prelude::*;

verus! {

/// The HTTP method of a page's data source.
#[derive(Debug, Clone, Copy)]
pub enum HttpMethod {
    Get,
    Post,
}

/// The format of a data source's answer.
#[derive(Debug, Clone, Copy)]
pub enum SourceType {
    Json,
    Xml,
    Text,
}

/// A request parameter.
#[derive(Debug)]
pub struct Param {
    pub key: String,
    pub value: String,
}

/// How an answer's data enters the page: merged into it or replacing it.
#[derive(Debug, Clone, Copy)]
pub enum ReplaceData {
    Merge,
    Replace,
}

/// The messages shown after a request.
#[derive(Debug)]
pub struct ApiTips {
    pub success: String,
    pub fail: String,
    pub is_success: bool,
    pub is_error: bool,
}

/// Where a data source's field comes from.
#[derive(Debug)]
pub struct SourceField {
    pub field_type: SourceFieldType,
    pub value: String,
}

/// Whether a field is fixed or computed.
#[derive(Debug, Clone, Copy)]
pub enum SourceFieldType {
    Static,
    Dynamic,
}

} // verus!
