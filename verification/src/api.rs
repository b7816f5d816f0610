//! Requests of the JJS HTTP API: method, path, parameters and body of each
//! endpoint that the API client calls.

use crate::text::{signed_decimal, signed_decimal_string};
use std::rc::Rc;
use vstd::prelude::*;

verus! {

/// The HTTP method of a request.
#[derive(Debug, Clone, Copy, PartialEq, Eq, Structural)]
pub enum Method {
    Get,
    Post,
    Delete,
    Patch,
}

/// A request to the API: its method, its path template, the values of the
/// path's parameters, its query parameters in order, its body, and whether
/// the response carries no value.
#[derive(Debug, PartialEq)]
pub struct ApiRequest<B> {
    pub method: Method,
    pub path: String,
    pub path_params: Vec<(String, String)>,
    pub query_params: Vec<(String, String)>,
    pub body: Option<B>,
    pub returns_nothing: bool,
}

/// The value of a request, without its body.
pub struct ApiRequestView {
    pub method: Method,
    pub path: Seq<char>,
    pub path_params: Seq<(Seq<char>, Seq<char>)>,
    pub query_params: Seq<(Seq<char>, Seq<char>)>,
    pub returns_nothing: bool,
}

/// The characters of string pairs.
pub open spec fn pairs_view(pairs: Seq<(String, String)>) -> Seq<(Seq<char>, Seq<char>)> {
    pairs.map_values(|p: (String, String)| (p.0@, p.1@))
}

impl<B> View for ApiRequest<B> {
    type V = ApiRequestView;

    open spec fn view(&self) -> ApiRequestView {
        ApiRequestView {
            method: self.method,
            path: self.path@,
            path_params: pairs_view(self.path_params@),
            query_params: pairs_view(self.query_params@),
            returns_nothing: self.returns_nothing,
        }
    }
}

/// A request with no parameters that returns a value.
pub open spec fn plain_request(method: Method, path: Seq<char>) -> ApiRequestView {
    ApiRequestView {
        method,
        path,
        path_params: seq![],
        query_params: seq![],
        returns_nothing: false,
    }
}

/// A request with one path parameter that returns a value.
pub open spec fn request_with_param(
    method: Method,
    path: Seq<char>,
    name: Seq<char>,
    value: Seq<char>,
) -> ApiRequestView {
    ApiRequestView {
        method,
        path,
        path_params: seq![(name, value)],
        query_params: seq![],
        returns_nothing: false,
    }
}

/// The text `bool::to_string` writes.
pub open spec fn bool_text(b: bool) -> Seq<char> {
    if b {
        "true"@
    } else {
        "false"@
    }
}

/// `name=value` for a flag that is given, nothing for one that is not.
pub open spec fn flag_param(name: Seq<char>, flag: Option<bool>) -> Seq<(Seq<char>, Seq<char>)> {
    match flag {
        Some(b) => seq![(name, bool_text(b))],
        None => seq![],
    }
}

/// The query of a protocol request: the given flags, in the order
/// `compile_log`, `test_data`, `output`, `answer`.
pub open spec fn protocol_query(
    compile_log: Option<bool>,
    test_data: Option<bool>,
    output: Option<bool>,
    answer: Option<bool>,
) -> Seq<(Seq<char>, Seq<char>)> {
    flag_param("compile_log"@, compile_log) + flag_param("test_data"@, test_data) + flag_param(
        "output"@,
        output,
    ) + flag_param("answer"@, answer)
}

/// The text of a boolean, as `bool::to_string` writes it.
pub fn bool_string(b: bool) -> (r: String)
    ensures
        r@ == bool_text(b),
{
    if b {
        String::from_str("true")
    } else {
        String::from_str("false")
    }
}

impl<B> ApiRequest<B> {
    /// A request with no parameters.
    pub fn new(method: Method, path: &str, body: Option<B>) -> (r: ApiRequest<B>)
        ensures
            r@ == plain_request(method, path@),
            r.body == body,
    {
        let r = ApiRequest {
            method,
            path: String::from_str(path),
            path_params: Vec::new(),
            query_params: Vec::new(),
            body,
            returns_nothing: false,
        };
        assert(pairs_view(r.path_params@) =~= seq![]);
        assert(pairs_view(r.query_params@) =~= seq![]);
        r
    }

    /// Adds the value of a path parameter.
    pub fn with_path_param(self, name: &str, value: String) -> (r: ApiRequest<B>)
        ensures
            r@ == (ApiRequestView {
                path_params: self@.path_params.push((name@, value@)),
                ..self@
            }),
            r.body == self.body,
    {
        let mut r = self;
        r.path_params.push((String::from_str(name), value));
        assert(pairs_view(r.path_params@) =~= pairs_view(self.path_params@).push((name@, value@)));
        r
    }

    /// Adds a query parameter.
    pub fn with_query_param(self, name: &str, value: String) -> (r: ApiRequest<B>)
        ensures
            r@ == (ApiRequestView {
                query_params: self@.query_params.push((name@, value@)),
                ..self@
            }),
            r.body == self.body,
    {
        let mut r = self;
        r.query_params.push((String::from_str(name), value));
        assert(pairs_view(r.query_params@) =~= pairs_view(self.query_params@).push(
            (name@, value@),
        ));
        r
    }

    /// Marks the request as one whose response carries no value.
    pub fn returns_nothing(self) -> (r: ApiRequest<B>)
        ensures
            r@ == (ApiRequestView { returns_nothing: true, ..self@ }),
            r.body == self.body,
    {
        let mut r = self;
        r.returns_nothing = true;
        r
    }

    /// Adds the query parameter `name` for a flag that is given.
    fn with_flag(self, name: &str, flag: Option<bool>) -> (r: ApiRequest<B>)
        ensures
            r@ == (ApiRequestView {
                query_params: self@.query_params + flag_param(name@, flag),
                ..self@
            }),
            r.body == self.body,
    {
        match flag {
            Some(b) => {
                let r = self.with_query_param(name, bool_string(b));
                assert(r@.query_params =~= self@.query_params + flag_param(name@, flag));
                r
            },
            None => {
                assert(self@.query_params =~= self@.query_params + flag_param(name@, flag));
                self
            },
        }
    }
}

/// The client of the JJS API.
pub struct DefaultApiClient<C> {
    configuration: Rc<C>,
}

impl<C> DefaultApiClient<C> {
    /// A client that uses the given configuration.
    pub fn new(configuration: Rc<C>) -> (client: DefaultApiClient<C>)
        ensures
            client.configuration() == configuration,
    {
        DefaultApiClient { configuration }
    }

    /// The configuration the client uses.
    pub closed spec fn configuration(&self) -> Rc<C> {
        self.configuration
    }

    /// The configuration that requests are executed with.
    pub fn config(&self) -> (r: &Rc<C>)
        ensures
            *r == self.configuration(),
    {
        &self.configuration
    }

    /// `GET /system/api-version`.
    pub fn api_version(&self) -> (r: ApiRequest<()>)
        ensures
            r@ == plain_request(Method::Get, "/system/api-version"@),
            r.body is None,
    {
        ApiRequest::new(Method::Get, "/system/api-version", None)
    }

    /// `POST /users` with the new user's parameters.
    pub fn create_user<P>(&self, user_create_params: P) -> (r: ApiRequest<P>)
        ensures
            r@ == plain_request(Method::Post, "/users"@),
            r.body == Some(user_create_params),
    {
        ApiRequest::new(Method::Post, "/users", Some(user_create_params))
    }

    /// `DELETE /runs/{id}`, which returns nothing.
    pub fn delete_run(&self, id: i32) -> (r: ApiRequest<()>)
        ensures
            r@ == (ApiRequestView {
                returns_nothing: true,
                ..request_with_param(
                    Method::Delete,
                    "/runs/{id}"@,
                    "id"@,
                    signed_decimal(id as int),
                )
            }),
            r.body is None,
    {
        ApiRequest::new(Method::Delete, "/runs/{id}", None).with_path_param(
            "id",
            signed_decimal_string(id as i64),
        ).returns_nothing()
    }

    /// `GET /contests/{name}`.
    pub fn get_contest(&self, name: &str) -> (r: ApiRequest<()>)
        ensures
            r@ == request_with_param(Method::Get, "/contests/{name}"@, "name"@, name@),
            r.body is None,
    {
        ApiRequest::new(Method::Get, "/contests/{name}", None).with_path_param(
            "name",
            String::from_str(name),
        )
    }

    /// `GET /contests/{name}/standings`.
    pub fn get_contest_standings(&self, name: &str) -> (r: ApiRequest<()>)
        ensures
            r@ == request_with_param(Method::Get, "/contests/{name}/standings"@, "name"@, name@),
            r.body is None,
    {
        ApiRequest::new(Method::Get, "/contests/{name}/standings", None).with_path_param(
            "name",
            String::from_str(name),
        )
    }

    /// `GET /runs/{id}`.
    pub fn get_run(&self, id: i32) -> (r: ApiRequest<()>)
        ensures
            r@ == request_with_param(
                Method::Get,
                "/runs/{id}"@,
                "id"@,
                signed_decimal(id as int),
            ),
            r.body is None,
    {
        ApiRequest::new(Method::Get, "/runs/{id}", None).with_path_param(
            "id",
            signed_decimal_string(id as i64),
        )
    }

    /// `GET /runs/<id>/binary`.
    pub fn get_run_binary(&self, id: i32) -> (r: ApiRequest<()>)
        ensures
            r@ == request_with_param(
                Method::Get,
                "/runs/<id>/binary"@,
                "id"@,
                signed_decimal(id as int),
            ),
            r.body is None,
    {
        ApiRequest::new(Method::Get, "/runs/<id>/binary", None).with_path_param(
            "id",
            signed_decimal_string(id as i64),
        )
    }

    /// `GET /runs/<id>/live`.
    pub fn get_run_live_status(&self, id: i32) -> (r: ApiRequest<()>)
        ensures
            r@ == request_with_param(
                Method::Get,
                "/runs/<id>/live"@,
                "id"@,
                signed_decimal(id as int),
            ),
            r.body is None,
    {
        ApiRequest::new(Method::Get, "/runs/<id>/live", None).with_path_param(
            "id",
            signed_decimal_string(id as i64),
        )
    }

    /// `GET /runs/<id>/protocol`, with a query parameter for each flag that
    /// is given.
    pub fn get_run_protocol(
        &self,
        id: i32,
        compile_log: Option<bool>,
        test_data: Option<bool>,
        output: Option<bool>,
        answer: Option<bool>,
    ) -> (r: ApiRequest<()>)
        ensures
            r@ == (ApiRequestView {
                query_params: protocol_query(compile_log, test_data, output, answer),
                ..request_with_param(
                    Method::Get,
                    "/runs/<id>/protocol"@,
                    "id"@,
                    signed_decimal(id as int),
                )
            }),
            r.body is None,
    {
        let req = ApiRequest::new(Method::Get, "/runs/<id>/protocol", None);
        let req = req.with_flag("compile_log", compile_log);
        let req = req.with_flag("test_data", test_data);
        let req = req.with_flag("output", output);
        let req = req.with_flag("answer", answer);
        let r = req.with_path_param("id", signed_decimal_string(id as i64));
        assert(r@.query_params =~= protocol_query(compile_log, test_data, output, answer));
        r
    }

    /// `GET /runs/<id>/source`.
    pub fn get_run_source(&self, id: i32) -> (r: ApiRequest<()>)
        ensures
            r@ == request_with_param(
                Method::Get,
                "/runs/<id>/source"@,
                "id"@,
                signed_decimal(id as int),
            ),
            r.body is None,
    {
        ApiRequest::new(Method::Get, "/runs/<id>/source", None).with_path_param(
            "id",
            signed_decimal_string(id as i64),
        )
    }

    /// `GET /system/is-dev`.
    pub fn is_dev(&self) -> (r: ApiRequest<()>)
        ensures
            r@ == plain_request(Method::Get, "/system/is-dev"@),
            r.body is None,
    {
        ApiRequest::new(Method::Get, "/system/is-dev", None)
    }

    /// `GET /contests/{name}/problems`.
    pub fn list_contest_problems(&self, name: &str) -> (r: ApiRequest<()>)
        ensures
            r@ == request_with_param(Method::Get, "/contests/{name}/problems"@, "name"@, name@),
            r.body is None,
    {
        ApiRequest::new(Method::Get, "/contests/{name}/problems", None).with_path_param(
            "name",
            String::from_str(name),
        )
    }

    /// `GET /contests`.
    pub fn list_contests(&self) -> (r: ApiRequest<()>)
        ensures
            r@ == plain_request(Method::Get, "/contests"@),
            r.body is None,
    {
        ApiRequest::new(Method::Get, "/contests", None)
    }

    /// `GET /runs`.
    pub fn list_runs(&self) -> (r: ApiRequest<()>)
        ensures
            r@ == plain_request(Method::Get, "/runs"@),
            r.body is None,
    {
        ApiRequest::new(Method::Get, "/runs", None)
    }

    /// `GET /toolchains`.
    pub fn list_toolchains(&self) -> (r: ApiRequest<()>)
        ensures
            r@ == plain_request(Method::Get, "/toolchains"@),
            r.body is None,
    {
        ApiRequest::new(Method::Get, "/toolchains", None)
    }

    /// `POST /auth/simple` with the credentials.
    pub fn log_in<P>(&self, simple_auth_params: P) -> (r: ApiRequest<P>)
        ensures
            r@ == plain_request(Method::Post, "/auth/simple"@),
            r.body == Some(simple_auth_params),
    {
        ApiRequest::new(Method::Post, "/auth/simple", Some(simple_auth_params))
    }

    /// `PATCH /runs/{id}` with the (optional) patch as its body.
    pub fn patch_run<P>(&self, id: i32, run_patch: Option<P>) -> (r: ApiRequest<Option<P>>)
        ensures
            r@ == request_with_param(
                Method::Patch,
                "/runs/{id}"@,
                "id"@,
                signed_decimal(id as int),
            ),
            r.body == Some(run_patch),
    {
        ApiRequest::new(Method::Patch, "/runs/{id}", Some(run_patch)).with_path_param(
            "id",
            signed_decimal_string(id as i64),
        )
    }

    /// `POST /runs` with the submission.
    pub fn submit_run<P>(&self, run_simple_submit_params: P) -> (r: ApiRequest<P>)
        ensures
            r@ == plain_request(Method::Post, "/runs"@),
            r.body == Some(run_simple_submit_params),
    {
        ApiRequest::new(Method::Post, "/runs", Some(run_simple_submit_params))
    }
}

} // verus!
