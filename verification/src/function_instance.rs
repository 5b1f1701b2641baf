//! Conversions between the wire representation of the function-instance
//! service (identifiers as text, optional fields) and the in-process request
//! types. Identifier text is parsed and printed by the uuid crate behind
//! trusted wrappers; everything around those calls is verified.

use vstd::prelude::*;

verus! {

/// A function instance address: two 128-bit identifiers held as bytes.
#[derive(Clone, Copy, Debug, PartialEq, Eq)]
pub struct FunctionId {
    pub node_id: [u8; 16],
    pub function_id: [u8; 16],
}

/// The wire form of `FunctionId`: both identifiers as text.
#[derive(Clone, Debug, PartialEq)]
pub struct ApiFunctionId {
    pub node_id: String,
    pub function_id: String,
}

/// What class of function to instantiate, in-process form.
#[derive(Clone, Debug, PartialEq)]
pub struct FunctionClassSpecification {
    pub function_class_id: String,
    pub function_class_type: String,
    pub function_class_version: String,
    pub function_class_inlude_code: Vec<u8>,
    pub output_callback_declarations: Vec<String>,
}

/// The wire form of a function class specification; the code is optional on
/// the wire and defaults to empty.
#[derive(Clone, Debug, PartialEq)]
pub struct ApiFunctionClassSpecification {
    pub function_class_id: String,
    pub function_class_type: String,
    pub function_class_version: String,
    pub function_class_inline_code: Option<Vec<u8>>,
    pub output_callback_declarations: Vec<String>,
}

/// The wire bytes of the class code: the carried bytes, or empty when absent.
pub open spec fn spec_inline_code(a: ApiFunctionClassSpecification) -> Seq<u8> {
    match a.function_class_inline_code {
        Some(v) => v@,
        None => Seq::empty(),
    }
}

impl ApiFunctionClassSpecification {
    /// The carried code bytes, empty when the field is absent.
    pub fn function_class_inline_code(&self) -> (r: Vec<u8>)
        ensures
            r@ == spec_inline_code(*self),
    {
        match &self.function_class_inline_code {
            Some(v) => clone_bytes(v),
            None => Vec::new(),
        }
    }
}

/// A request to start one function instance, in-process form.
#[derive(Clone, Debug, PartialEq)]
pub struct SpawnFunctionRequest {
    pub function_id: Option<FunctionId>,
    pub code: FunctionClassSpecification,
    pub output_callback_definitions: Vec<(String, FunctionId)>,
    pub return_continuation: FunctionId,
    pub annotations: Vec<(String, String)>,
}

/// The wire form of a spawn request: identifiers as text, code and
/// continuation optional.
#[derive(Clone, Debug, PartialEq)]
pub struct ApiSpawnFunctionRequest {
    pub function_id: Option<ApiFunctionId>,
    pub code: Option<ApiFunctionClassSpecification>,
    pub output_callback_definitions: Vec<(String, ApiFunctionId)>,
    pub return_continuation: Option<ApiFunctionId>,
    pub annotations: Vec<(String, String)>,
}

/// The hyphenated text the uuid crate prints for 16 identifier bytes.
pub uninterp spec fn uuid_text_of(b: Seq<u8>) -> Seq<char>;

/// The identifier bytes the uuid crate reads from text, if the text is one of
/// the accepted identifier forms.
pub uninterp spec fn uuid_of_text(s: Seq<char>) -> Option<Seq<u8>>;

/// Relies on `uuid::Uuid`: `from_bytes` keeps the 16 bytes, `Display` prints
/// the hyphenated lowercase form, and `parse_str` reads that form back to the
/// same bytes.
#[verifier::external_body]
fn uuid_to_string(b: &[u8; 16]) -> (r: String)
    ensures
        r@ == uuid_text_of(b@),
        uuid_of_text(r@) == Some(b@),
{
    uuid::Uuid::from_bytes(*b).to_string()
}

/// Relies on `uuid::Uuid::parse_str`: it accepts exactly the textual
/// identifier forms and returns the 16 bytes they name.
#[verifier::external_body]
fn uuid_parse(s: &str) -> (r: Option<[u8; 16]>)
    ensures
        match r {
            Some(b) => uuid_of_text(s@) == Some(b@),
            None => uuid_of_text(s@) is None,
        },
{
    match uuid::Uuid::parse_str(s) {
        Ok(u) => Some(u.into_bytes()),
        Err(_) => None,
    }
}

/// Copies a byte vector.
fn clone_bytes(v: &Vec<u8>) -> (r: Vec<u8>)
    ensures
        r@ == v@,
{
    let mut r: Vec<u8> = Vec::new();
    let mut i: usize = 0;
    while i < v.len()
        invariant
            i <= v.len(),
            r@ == v@.take(i as int),
        decreases v.len() - i,
    {
        r.push(v[i]);
        proof {
            assert(v@.take(i + 1) =~= v@.take(i as int).push(v@[i as int]));
        }
        i = i + 1;
    }
    proof {
        assert(v@.take(v@.len() as int) =~= v@);
    }
    r
}

/// Copies a vector of strings, value for value.
fn clone_strings(v: &Vec<String>) -> (r: Vec<String>)
    ensures
        r@ == v@,
{
    let mut r: Vec<String> = Vec::new();
    let mut i: usize = 0;
    while i < v.len()
        invariant
            i <= v.len(),
            r@ == v@.take(i as int),
        decreases v.len() - i,
    {
        r.push(v[i].clone());
        proof {
            assert(v@.take(i + 1) =~= v@.take(i as int).push(v@[i as int]));
        }
        i = i + 1;
    }
    proof {
        assert(v@.take(v@.len() as int) =~= v@);
    }
    r
}

/// Copies a vector of string pairs, value for value.
fn clone_string_pairs(v: &Vec<(String, String)>) -> (r: Vec<(String, String)>)
    ensures
        r@ == v@,
{
    let mut r: Vec<(String, String)> = Vec::new();
    let mut i: usize = 0;
    while i < v.len()
        invariant
            i <= v.len(),
            r@ == v@.take(i as int),
        decreases v.len() - i,
    {
        let pair = &v[i];
        r.push((pair.0.clone(), pair.1.clone()));
        proof {
            assert(v@.take(i + 1) =~= v@.take(i as int).push(v@[i as int]));
        }
        i = i + 1;
    }
    proof {
        assert(v@.take(v@.len() as int) =~= v@);
    }
    r
}

/// The identifier relation between wire text and parsed bytes.
pub open spec fn spec_parsed_id(api: ApiFunctionId, fid: FunctionId) -> bool {
    uuid_of_text(api.node_id@) == Some(fid.node_id@) && uuid_of_text(api.function_id@) == Some(
        fid.function_id@,
    )
}

/// Both identifier texts parse.
pub open spec fn spec_id_parses(api: ApiFunctionId) -> bool {
    uuid_of_text(api.node_id@) is Some && uuid_of_text(api.function_id@) is Some
}

/// The field relation between a wire class specification and its in-process
/// form.
pub open spec fn spec_parsed_class(api: ApiFunctionClassSpecification,
    c: FunctionClassSpecification) -> bool {
    c.function_class_id@ == api.function_class_id@ && c.function_class_type@
        == api.function_class_type@ && c.function_class_version@ == api.function_class_version@
        && c.function_class_inlude_code@ == spec_inline_code(api)
        && c.output_callback_declarations@ == api.output_callback_declarations@
}

/// The field relation between a wire spawn request and its in-process form.
pub open spec fn spec_parsed_request(api: ApiSpawnFunctionRequest, req: SpawnFunctionRequest)
    -> bool {
    &&& match api.function_id {
        Some(f) => req.function_id is Some && spec_parsed_id(f, req.function_id.unwrap()),
        None => req.function_id is None,
    }
    &&& api.code is Some && spec_parsed_class(api.code.unwrap(), req.code)
    &&& req.output_callback_definitions@.len() == api.output_callback_definitions@.len()
    &&& forall|i: int|
        0 <= i < req.output_callback_definitions@.len() ==> (
        #[trigger] req.output_callback_definitions@[i]).0@ == api.output_callback_definitions@[i].0@
            && spec_parsed_id(
            api.output_callback_definitions@[i].1,
            req.output_callback_definitions@[i].1,
        )
    &&& api.return_continuation is Some && spec_parsed_id(
        api.return_continuation.unwrap(),
        req.return_continuation,
    )
    &&& req.annotations@ == api.annotations@
}

/// Everything a wire spawn request needs for parsing to succeed: the code and
/// the continuation are present and every identifier text parses.
pub open spec fn spec_request_parses(api: ApiSpawnFunctionRequest) -> bool {
    &&& api.code is Some
    &&& api.return_continuation is Some
    &&& spec_id_parses(api.return_continuation.unwrap())
    &&& match api.function_id {
        Some(f) => spec_id_parses(f),
        None => true,
    }
    &&& forall|i: int|
        0 <= i < api.output_callback_definitions@.len() ==> spec_id_parses(
            #[trigger] api.output_callback_definitions@[i].1,
        )
}

pub struct FunctonInstanceConverters {}

impl FunctonInstanceConverters {
    /// Parses a wire identifier whose two texts are known to parse; the
    /// checked entry point is `try_parse_function_id`.
    pub fn parse_function_id(api_id: &ApiFunctionId) -> (r: FunctionId)
        requires
            spec_id_parses(*api_id),
        ensures
            spec_parsed_id(*api_id, r),
    {
        let node_id = uuid_parse(api_id.node_id.as_str()).unwrap();
        let function_id = uuid_parse(api_id.function_id.as_str()).unwrap();
        FunctionId { node_id, function_id }
    }

    /// Parses a wire identifier, telling apart text that does not name one.
    pub fn try_parse_function_id(api_id: &ApiFunctionId) -> (r: Option<FunctionId>)
        ensures
            match r {
                Some(fid) => spec_id_parses(*api_id) && spec_parsed_id(*api_id, fid),
                None => !spec_id_parses(*api_id),
            },
    {
        let node = uuid_parse(api_id.node_id.as_str());
        let func = uuid_parse(api_id.function_id.as_str());
        if node.is_some() && func.is_some() {
            Some(Self::parse_function_id(api_id))
        } else {
            None
        }
    }

    /// Brings a wire class specification in-process; an absent code field
    /// becomes empty code.
    pub fn parse_function_class_specification(api_spec: &ApiFunctionClassSpecification) -> (r:
        FunctionClassSpecification)
        ensures
            spec_parsed_class(*api_spec, r),
    {
        FunctionClassSpecification {
            function_class_id: api_spec.function_class_id.clone(),
            function_class_type: api_spec.function_class_type.clone(),
            function_class_version: api_spec.function_class_version.clone(),
            function_class_inlude_code: api_spec.function_class_inline_code(),
            output_callback_declarations: clone_strings(&api_spec.output_callback_declarations),
        }
    }

    /// Parses a whole spawn request whose identifier texts are known to
    /// parse. Returns `None` exactly when the request carries no code; the
    /// checked entry point is `try_parse_api_request`.
    pub fn parse_api_request(api_request: &ApiSpawnFunctionRequest) -> (r: Option<
        SpawnFunctionRequest,
    >)
        requires
            api_request.return_continuation is Some,
            spec_id_parses(api_request.return_continuation.unwrap()),
            match api_request.function_id {
                Some(f) => spec_id_parses(f),
                None => true,
            },
            forall|i: int|
                0 <= i < api_request.output_callback_definitions@.len() ==> spec_id_parses(
                    #[trigger] api_request.output_callback_definitions@[i].1,
                ),
        ensures
            r is Some <==> api_request.code is Some,
            r is Some ==> spec_parsed_request(*api_request, r.unwrap()),
    {
        let code = match &api_request.code {
            Some(c) => c,
            None => {
                return None;
            },
        };
        let function_id = match &api_request.function_id {
            Some(f) => Some(Self::parse_function_id(f)),
            None => None,
        };
        let mut defs: Vec<(String, FunctionId)> = Vec::new();
        let mut i: usize = 0;
        while i < api_request.output_callback_definitions.len()
            invariant
                i <= api_request.output_callback_definitions@.len(),
                forall|j: int|
                    0 <= j < api_request.output_callback_definitions@.len() ==> spec_id_parses(
                        #[trigger] api_request.output_callback_definitions@[j].1,
                    ),
                defs@.len() == i,
                forall|j: int|
                    0 <= j < i ==> (#[trigger] defs@[j]).0@
                        == api_request.output_callback_definitions@[j].0@ && spec_parsed_id(
                        api_request.output_callback_definitions@[j].1,
                        defs@[j].1,
                    ),
            decreases api_request.output_callback_definitions@.len() - i,
        {
            let pair = &api_request.output_callback_definitions[i];
            let fid = Self::parse_function_id(&pair.1);
            defs.push((pair.0.clone(), fid));
            i = i + 1;
        }
        let rc = match &api_request.return_continuation {
            Some(rc) => rc,
            None => {
                return None;
            },
        };
        Some(
            SpawnFunctionRequest {
                function_id,
                code: Self::parse_function_class_specification(code),
                output_callback_definitions: defs,
                return_continuation: Self::parse_function_id(rc),
                annotations: clone_string_pairs(&api_request.annotations),
            },
        )
    }

    /// Parses a whole spawn request from the wire, checking every identifier
    /// text first. Returns `None` when the code is missing, the continuation
    /// is missing, or any identifier text does not parse.
    pub fn try_parse_api_request(api_request: &ApiSpawnFunctionRequest) -> (r: Option<
        SpawnFunctionRequest,
    >)
        ensures
            r is Some <==> spec_request_parses(*api_request),
            r is Some ==> spec_parsed_request(*api_request, r.unwrap()),
    {
        if api_request.code.is_none() {
            return None;
        }
        let rc = match &api_request.return_continuation {
            Some(rc) => rc,
            None => {
                return None;
            },
        };
        if Self::try_parse_function_id(rc).is_none() {
            return None;
        }
        match &api_request.function_id {
            Some(f) => {
                if Self::try_parse_function_id(f).is_none() {
                    return None;
                }
            },
            None => {},
        }
        let mut i: usize = 0;
        while i < api_request.output_callback_definitions.len()
            invariant
                i <= api_request.output_callback_definitions@.len(),
                forall|j: int|
                    0 <= j < i ==> spec_id_parses(
                        #[trigger] api_request.output_callback_definitions@[j].1,
                    ),
            decreases api_request.output_callback_definitions@.len() - i,
        {
            let pair = &api_request.output_callback_definitions[i];
            if Self::try_parse_function_id(&pair.1).is_none() {
                return None;
            }
            i = i + 1;
        }
        Self::parse_api_request(api_request)
    }

    /// Prints an identifier for the wire: both parts in the hyphenated text
    /// form, which parses back to the same bytes.
    pub fn serialize_function_id(function_id: &FunctionId) -> (r: ApiFunctionId)
        ensures
            r.node_id@ == uuid_text_of(function_id.node_id@),
            r.function_id@ == uuid_text_of(function_id.function_id@),
            spec_parsed_id(r, *function_id),
    {
        ApiFunctionId {
            node_id: uuid_to_string(&function_id.node_id),
            function_id: uuid_to_string(&function_id.function_id),
        }
    }

    /// Puts a class specification on the wire; the code always travels, as an
    /// explicit field.
    pub fn serialize_function_class_specification(spec: &FunctionClassSpecification) -> (r:
        ApiFunctionClassSpecification)
        ensures
            spec_parsed_class(r, *spec),
            r.function_class_inline_code is Some,
    {
        ApiFunctionClassSpecification {
            function_class_id: spec.function_class_id.clone(),
            function_class_type: spec.function_class_type.clone(),
            function_class_version: spec.function_class_version.clone(),
            function_class_inline_code: Some(clone_bytes(&spec.function_class_inlude_code)),
            output_callback_declarations: clone_strings(&spec.output_callback_declarations),
        }
    }

    /// Puts a whole spawn request on the wire. Every identifier is printed in
    /// the text form that parses back to the same bytes, so a round trip
    /// through `parse_api_request` reproduces the request.
    pub fn serialize_spawn_function_request(req: &SpawnFunctionRequest) -> (r:
        ApiSpawnFunctionRequest)
        ensures
            match req.function_id {
                Some(f) => r.function_id is Some && spec_parsed_id(r.function_id.unwrap(), f),
                None => r.function_id is None,
            },
            r.code is Some && spec_parsed_class(r.code.unwrap(), req.code),
            r.output_callback_definitions@.len() == req.output_callback_definitions@.len(),
            forall|i: int|
                0 <= i < r.output_callback_definitions@.len() ==> (
                #[trigger] r.output_callback_definitions@[i]).0@
                    == req.output_callback_definitions@[i].0@ && spec_parsed_id(
                    r.output_callback_definitions@[i].1,
                    req.output_callback_definitions@[i].1,
                ),
            r.return_continuation is Some && spec_parsed_id(
                r.return_continuation.unwrap(),
                req.return_continuation,
            ),
            r.annotations@ == req.annotations@,
    {
        let function_id = match &req.function_id {
            Some(f) => Some(Self::serialize_function_id(f)),
            None => None,
        };
        let mut defs: Vec<(String, ApiFunctionId)> = Vec::new();
        let mut i: usize = 0;
        while i < req.output_callback_definitions.len()
            invariant
                i <= req.output_callback_definitions@.len(),
                defs@.len() == i,
                forall|j: int|
                    0 <= j < i ==> (#[trigger] defs@[j]).0@
                        == req.output_callback_definitions@[j].0@ && spec_parsed_id(
                        defs@[j].1,
                        req.output_callback_definitions@[j].1,
                    ),
            decreases req.output_callback_definitions@.len() - i,
        {
            let pair = &req.output_callback_definitions[i];
            let api_id = Self::serialize_function_id(&pair.1);
            defs.push((pair.0.clone(), api_id));
            i = i + 1;
        }
        ApiSpawnFunctionRequest {
            function_id,
            code: Some(Self::serialize_function_class_specification(&req.code)),
            output_callback_definitions: defs,
            return_continuation: Some(Self::serialize_function_id(&req.return_continuation)),
            annotations: clone_string_pairs(&req.annotations),
        }
    }
}

} // verus!
