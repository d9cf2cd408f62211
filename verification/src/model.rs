//! The contact service's data transfer objects and their builders:
//! the query parameters, the contact records, the token claims, and
//! the generic response envelope with its builder pair.

use vstd::prelude::*;
use vstd::string::*;

verus! {

/// The query parameters of the listing endpoints.
#[derive(Debug, Clone)]
pub struct QueryParams {
    pub page: Option<i32>,
    pub size: Option<i32>,
    pub hierarchy: Option<i32>,
    pub contact: Option<i32>,
}

/// One contact record as stored and returned.
#[derive(Debug, Clone)]
pub struct ContactDTO {
    pub contact_id: i32,
    pub first_name: String,
    pub last_name: String,
    pub contact_type: Option<String>,
    pub email: Option<String>,
    pub phone_number: Option<String>,
    pub mobile_number: Option<String>,
    pub status: Option<i32>,
}

/// A contact as a write request carries it.
#[derive(Debug, Clone)]
pub struct ContactRequestDTO {
    pub hierarchy_id: u32,
    pub first_name: String,
    pub last_name: String,
    pub contact_type: String,
    pub email: String,
    pub phone_number: String,
    pub mobile_number: String,
}

/// The claims read out of an access token.
#[derive(Debug, Clone)]
pub struct Claims {
    pub iduser: Option<String>,
    pub role: Option<String>,
    pub given_name: Option<String>,
    pub family_name: Option<String>,
    pub exp: usize,
}

/// The generic response envelope.
#[derive(Debug, Clone)]
pub struct ResponseDTO<T> {
    pub response_type: String,
    pub clazz: Option<T>,
    pub list: Option<T>,
    pub response_code: ResponseCodeDTO,
    pub page: Option<i32>,
    pub size: Option<i32>,
    pub total_pages: Option<i32>,
    pub total_elements: Option<i32>,
}

/// The response code block of an envelope.
#[derive(Debug, Clone)]
pub struct ResponseCodeDTO {
    pub code: String,
    pub message: String,
    pub html_message: String,
    pub solution: String,
    pub category: String,
}

/// Step-by-step construction of a [`ResponseDTO`].
pub struct ResponseDTOBuilder<T> {
    pub response_type: Option<String>,
    pub clazz: Option<T>,
    pub list: Option<T>,
    pub response_code: Option<ResponseCodeDTO>,
    pub page: Option<i32>,
    pub size: Option<i32>,
    pub total_pages: Option<i32>,
    pub total_elements: Option<i32>,
}

/// Step-by-step construction of a [`ResponseCodeDTO`].
pub struct ResponseCodeDTOBuilder {
    pub code: Option<String>,
    pub message: Option<String>,
    pub html_message: Option<String>,
    pub solution: Option<String>,
    pub category: Option<String>,
}

/// The first required envelope field the builder is missing, with its
/// build error.
pub open spec fn spec_response_missing<T>(b: &ResponseDTOBuilder<T>) -> Option<Seq<char>> {
    if b.response_type is None {
        Some("type is required"@)
    } else if b.response_code is None {
        Some("response_code is required"@)
    } else {
        None
    }
}

impl<T> ResponseDTOBuilder<T> {
    /// An empty builder: nothing set.
    pub fn new() -> (r: Self)
        ensures
            r.response_type is None,
            r.clazz is None,
            r.list is None,
            r.response_code is None,
            r.page is None,
            r.size is None,
            r.total_pages is None,
            r.total_elements is None,
    {
        Self {
            response_type: None,
            clazz: None,
            list: None,
            response_code: None,
            page: None,
            size: None,
            total_pages: None,
            total_elements: None,
        }
    }

    /// Set the response type name.
    pub fn response_type(self, type_value: &str) -> (r: Self)
        ensures
            r.response_type matches Some(t) && t@ == type_value@,
            r.clazz == self.clazz,
            r.list == self.list,
            r.response_code == self.response_code,
            r.page == self.page,
            r.size == self.size,
            r.total_pages == self.total_pages,
            r.total_elements == self.total_elements,
    {
        Self { response_type: Some(String::from_str(type_value)), ..self }
    }

    /// Set the single payload.
    pub fn clazz(self, clazz: T) -> (r: Self)
        ensures
            r.clazz == Some(clazz),
            r.response_type == self.response_type,
            r.list == self.list,
            r.response_code == self.response_code,
            r.page == self.page,
            r.size == self.size,
            r.total_pages == self.total_pages,
            r.total_elements == self.total_elements,
    {
        Self { clazz: Some(clazz), ..self }
    }

    /// Set the list payload.
    pub fn list(self, list: T) -> (r: Self)
        ensures
            r.list == Some(list),
            r.response_type == self.response_type,
            r.clazz == self.clazz,
            r.response_code == self.response_code,
            r.page == self.page,
            r.size == self.size,
            r.total_pages == self.total_pages,
            r.total_elements == self.total_elements,
    {
        Self { list: Some(list), ..self }
    }

    /// Set the response code block.
    pub fn response_code(self, response_code: ResponseCodeDTO) -> (r: Self)
        ensures
            r.response_code == Some(response_code),
            r.response_type == self.response_type,
            r.clazz == self.clazz,
            r.list == self.list,
            r.page == self.page,
            r.size == self.size,
            r.total_pages == self.total_pages,
            r.total_elements == self.total_elements,
    {
        Self { response_code: Some(response_code), ..self }
    }

    /// Set the page number.
    pub fn page(self, page: i32) -> (r: Self)
        ensures
            r.page == Some(page),
            r.response_type == self.response_type,
            r.clazz == self.clazz,
            r.list == self.list,
            r.response_code == self.response_code,
            r.size == self.size,
            r.total_pages == self.total_pages,
            r.total_elements == self.total_elements,
    {
        Self { page: Some(page), ..self }
    }

    /// Set the page size.
    pub fn size(self, size: i32) -> (r: Self)
        ensures
            r.size == Some(size),
            r.response_type == self.response_type,
            r.clazz == self.clazz,
            r.list == self.list,
            r.response_code == self.response_code,
            r.page == self.page,
            r.total_pages == self.total_pages,
            r.total_elements == self.total_elements,
    {
        Self { size: Some(size), ..self }
    }

    /// Set the page count.
    pub fn total_pages(self, total_pages: i32) -> (r: Self)
        ensures
            r.total_pages == Some(total_pages),
            r.response_type == self.response_type,
            r.clazz == self.clazz,
            r.list == self.list,
            r.response_code == self.response_code,
            r.page == self.page,
            r.size == self.size,
            r.total_elements == self.total_elements,
    {
        Self { total_pages: Some(total_pages), ..self }
    }

    /// Set the element count.
    pub fn total_elements(self, total_elements: i32) -> (r: Self)
        ensures
            r.total_elements == Some(total_elements),
            r.response_type == self.response_type,
            r.clazz == self.clazz,
            r.list == self.list,
            r.response_code == self.response_code,
            r.page == self.page,
            r.size == self.size,
            r.total_pages == self.total_pages,
    {
        Self { total_elements: Some(total_elements), ..self }
    }

    /// Assemble the envelope: succeeds exactly when the type name and
    /// the response code are set, carrying every field over; else the
    /// first missing field's error.
    pub fn build(self) -> (r: Result<ResponseDTO<T>, &'static str>)
        ensures
            match r {
                Ok(d) => spec_response_missing(&self) is None && self.response_type == Some(
                    d.response_type,
                ) && self.response_code == Some(d.response_code) && d.clazz == self.clazz
                    && d.list == self.list && d.page == self.page && d.size == self.size
                    && d.total_pages == self.total_pages && d.total_elements
                    == self.total_elements,
                Err(e) => spec_response_missing(&self) == Some(e@),
            },
    {
        let response_type = match self.response_type {
            Some(t) => t,
            None => { return Err("type is required") },
        };
        let response_code = match self.response_code {
            Some(c) => c,
            None => { return Err("response_code is required") },
        };
        Ok(
            ResponseDTO {
                response_type,
                clazz: self.clazz,
                list: self.list,
                response_code,
                page: self.page,
                size: self.size,
                total_pages: self.total_pages,
                total_elements: self.total_elements,
            },
        )
    }
}

/// The first required code-block field the builder is missing, with
/// its build error.
pub open spec fn spec_code_missing(b: &ResponseCodeDTOBuilder) -> Option<Seq<char>> {
    if b.code is None {
        Some("code is required"@)
    } else if b.message is None {
        Some("message is required"@)
    } else if b.html_message is None {
        Some("html_message is required"@)
    } else if b.solution is None {
        Some("solution is required"@)
    } else if b.category is None {
        Some("category is required"@)
    } else {
        None
    }
}

impl ResponseCodeDTOBuilder {
    /// An empty builder: nothing set.
    pub fn new() -> (r: Self)
        ensures
            r.code is None,
            r.message is None,
            r.html_message is None,
            r.solution is None,
            r.category is None,
    {
        Self { code: None, message: None, html_message: None, solution: None, category: None }
    }

    /// Set the response code.
    pub fn code(self, code: &str) -> (r: Self)
        ensures
            r.code matches Some(c) && c@ == code@,
            r.message == self.message,
            r.html_message == self.html_message,
            r.solution == self.solution,
            r.category == self.category,
    {
        Self { code: Some(String::from_str(code)), ..self }
    }

    /// Set the plain message.
    pub fn message(self, message: &str) -> (r: Self)
        ensures
            r.message matches Some(m) && m@ == message@,
            r.code == self.code,
            r.html_message == self.html_message,
            r.solution == self.solution,
            r.category == self.category,
    {
        Self { message: Some(String::from_str(message)), ..self }
    }

    /// Set the HTML message.
    pub fn html_message(self, html_message: &str) -> (r: Self)
        ensures
            r.html_message matches Some(m) && m@ == html_message@,
            r.code == self.code,
            r.message == self.message,
            r.solution == self.solution,
            r.category == self.category,
    {
        Self { html_message: Some(String::from_str(html_message)), ..self }
    }

    /// Set the suggested solution.
    pub fn solution(self, solution: &str) -> (r: Self)
        ensures
            r.solution matches Some(m) && m@ == solution@,
            r.code == self.code,
            r.message == self.message,
            r.html_message == self.html_message,
            r.category == self.category,
    {
        Self { solution: Some(String::from_str(solution)), ..self }
    }

    /// Set the category.
    pub fn category(self, category: &str) -> (r: Self)
        ensures
            r.category matches Some(m) && m@ == category@,
            r.code == self.code,
            r.message == self.message,
            r.html_message == self.html_message,
            r.solution == self.solution,
    {
        Self { category: Some(String::from_str(category)), ..self }
    }

    /// Assemble the code block: succeeds exactly when every field is
    /// set, carrying each over; else the first missing field's error.
    pub fn build(self) -> (r: Result<ResponseCodeDTO, &'static str>)
        ensures
            match r {
                Ok(d) => spec_code_missing(&self) is None && self.code == Some(d.code)
                    && self.message == Some(d.message) && self.html_message == Some(
                    d.html_message,
                ) && self.solution == Some(d.solution) && self.category == Some(d.category),
                Err(e) => spec_code_missing(&self) == Some(e@),
            },
    {
        let code = match self.code {
            Some(v) => v,
            None => { return Err("code is required") },
        };
        let message = match self.message {
            Some(v) => v,
            None => { return Err("message is required") },
        };
        let html_message = match self.html_message {
            Some(v) => v,
            None => { return Err("html_message is required") },
        };
        let solution = match self.solution {
            Some(v) => v,
            None => { return Err("solution is required") },
        };
        let category = match self.category {
            Some(v) => v,
            None => { return Err("category is required") },
        };
        Ok(ResponseCodeDTO { code, message, html_message, solution, category })
    }
}

impl<T> ResponseDTO<T> {
    /// A fresh envelope builder.
    pub fn builder() -> (r: ResponseDTOBuilder<T>)
        ensures
            r.response_type is None,
            r.clazz is None,
            r.list is None,
            r.response_code is None,
            r.page is None,
            r.size is None,
            r.total_pages is None,
            r.total_elements is None,
    {
        ResponseDTOBuilder::new()
    }
}

impl ResponseCodeDTO {
    /// A fresh code-block builder.
    pub fn builder() -> (r: ResponseCodeDTOBuilder)
        ensures
            r.code is None,
            r.message is None,
            r.html_message is None,
            r.solution is None,
            r.category is None,
    {
        ResponseCodeDTOBuilder::new()
    }
}

/// The empty listing response: the standard envelope around an empty
/// contact list, with the given code, message and HTML message and
/// every count at zero.
pub fn create_empty_response(code: &str, message: &str, html: &str) -> (r: ResponseDTO<
    Vec<ContactDTO>,
>)
    ensures
        r.response_type@ == "HierarchyContactResponse"@,
        r.clazz is None,
        r.list matches Some(l) && l@.len() == 0,
        r.page == Some(0i32),
        r.size == Some(0i32),
        r.total_pages == Some(0i32),
        r.total_elements == Some(0i32),
        r.response_code.code@ == code@,
        r.response_code.message@ == message@,
        r.response_code.html_message@ == html@,
        r.response_code.solution@ == ""@,
        r.response_code.category@ == ""@,
{
    let response_code = match ResponseCodeDTO::builder().code(code).message(message).html_message(
        html,
    ).solution("").category("").build() {
        Ok(c) => c,
        Err(_) => {
            proof {
                assert(false);
            }
            ResponseCodeDTO {
                code: String::new(),
                message: String::new(),
                html_message: String::new(),
                solution: String::new(),
                category: String::new(),
            }
        },
    };
    let empty: Vec<ContactDTO> = Vec::new();
    match ResponseDTOBuilder::new().response_type("HierarchyContactResponse").list(empty).page(
        0,
    ).size(0).total_pages(0).total_elements(0).response_code(response_code).build() {
        Ok(d) => d,
        Err(_) => {
            proof {
                assert(false);
            }
            ResponseDTO {
                response_type: String::new(),
                clazz: None,
                list: None,
                response_code: ResponseCodeDTO {
                    code: String::new(),
                    message: String::new(),
                    html_message: String::new(),
                    solution: String::new(),
                    category: String::new(),
                },
                page: None,
                size: None,
                total_pages: None,
                total_elements: None,
            }
        },
    }
}

/// The page count of a listing: how many pages of `size` rows hold
/// `total_elements` rows.
pub fn total_pages_of(total_elements: i32, size: i32) -> (r: i32)
    requires
        size > 0,
        0 <= total_elements,
        total_elements + size <= i32::MAX,
    ensures
        r == (total_elements + size - 1) as int / size as int,
{
    (total_elements + size - 1) / size
}

} // verus!
