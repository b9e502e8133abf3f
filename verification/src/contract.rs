//! The results of contract calls and queries: each waits on the transport's
//! answer, or holds an outcome known in advance, which it yields once.
use vstd::prelude::*;

verus! {

/// A function of a contract's ABI, which decodes the answer to a query.
#[verifier::external_type_specification]
#[verifier::external_body]
pub struct ExAbiFunction(ethabi::Function);

/// What went wrong while encoding or decoding with a contract's ABI.
#[verifier::external_type_specification]
#[verifier::external_body]
pub struct ExAbiErrorKind(ethabi::ErrorKind);

/// A value decoded with a contract's ABI.
#[verifier::external_type_specification]
#[verifier::external_body]
pub struct ExAbiToken(ethabi::Token);

/// A type of a parameter of a contract's ABI.
#[verifier::external_type_specification]
#[verifier::external_body]
pub struct ExAbiParamType(ethabi::ParamType);

/// What `ethabi::Function::decode_output` makes of a function and the bytes of
/// an answer: the output tokens, or the kind of the error.
pub uninterp spec fn abi_decoded(function: ethabi::Function, data: Seq<u8>) -> Result<Seq<ethabi::Token>, ethabi::ErrorKind>;

/// The types of a function's outputs, in order: the `kind` of each of its
/// `outputs`.
pub uninterp spec fn abi_output_types(function: ethabi::Function) -> Seq<ethabi::ParamType>;

/// The text that `ethabi::param_type::Writer::write` gives for a parameter type:
/// the base type's name, then one `[]` or `[n]` per array level, innermost
/// first, such as `uint256[2][]`.
pub uninterp spec fn abi_type_text(t: ethabi::ParamType) -> Seq<char>;

/// Whether a type's text opens a fixed-size array `[n]` at `j`.
pub open spec fn opens_fixed_array(text: Seq<char>, j: int) -> bool {
    0 <= j && j + 1 < text.len() && text[j] == '[' && text[j + 1] != ']'
}

/// Whether a type's text opens an array of unknown size `[]` at `i`.
pub open spec fn opens_dynamic_array(text: Seq<char>, i: int) -> bool {
    0 <= i && i + 1 < text.len() && text[i] == '[' && text[i + 1] == ']'
}

/// Whether a type's text starts with a dynamic base type (`bytes` or
/// `string`) that an array level follows.
pub open spec fn dynamic_base(text: Seq<char>) -> bool {
    ||| text.len() >= 6 && text.take(6) == seq!['b', 'y', 't', 'e', 's', '[']
    ||| text.len() >= 7 && text.take(7) == seq!['s', 't', 'r', 'i', 'n', 'g', '[']
}

/// Whether the type whose text this is holds a fixed-size array of a dynamic
/// type: some `[n]` follows a `bytes` or `string` base or an earlier `[]`.
pub open spec fn has_dynamic_fixed_array(text: Seq<char>) -> bool {
    exists|j: int| #[trigger] opens_fixed_array(text, j)
        && (dynamic_base(text) || exists|i: int| i < j && #[trigger] opens_dynamic_array(text, i))
}

/// Whether no output type of a function holds a fixed-size array of a dynamic
/// type: the answers to such a function decode without a panic.
pub open spec fn decodes_safely(function: ethabi::Function) -> bool {
    forall|k: int| 0 <= k < abi_output_types(function).len()
        ==> !has_dynamic_fixed_array(#[trigger] abi_type_text(abi_output_types(function)[k]))
}

/// The types of a function's outputs: the `kind` of each of its `outputs`, in
/// order (what `ethabi`'s private `Function::output_param_types` gives).
#[verifier::external_body]
fn output_types(function: &ethabi::Function) -> (r: Vec<ethabi::ParamType>)
    ensures
        r@ == abi_output_types(*function),
{
    function.outputs.iter().map(|p| p.kind.clone()).collect()
}

/// The text of a parameter type, with `ethabi::param_type::Writer::write`.
#[verifier::external_body]
fn type_text(t: &ethabi::ParamType) -> (s: String)
    ensures
        s@ == abi_type_text(*t),
{
    ethabi::param_type::Writer::write(t)
}

/// Decodes the bytes of an answer with `ethabi::Function::decode_output`; an
/// error keeps its kind. For an output that is a fixed-size array of a dynamic
/// type, `ethabi` slices the answer at an offset read from the answer without
/// checking it, and panics when the offset lies past the end; `requires` leaves
/// such functions out. The contract claims that the result is a function of
/// the function and the bytes alone.
#[verifier::external_body]
fn decode_output_tokens(function: &ethabi::Function, data: &[u8]) -> (r: Result<Vec<ethabi::Token>, ethabi::ErrorKind>)
    requires
        decodes_safely(*function),
    ensures
        match (r, abi_decoded(*function, data@)) {
            (Ok(v), Ok(t)) => v@ == t,
            (Err(a), Err(b)) => a == b,
            _ => false,
        },
{
    function.decode_output(data).map_err(|e| e.0)
}

/// Whether a type's text holds a fixed-size array of a dynamic type.
fn text_has_dynamic_fixed_array(text: &String) -> (b: bool)
    ensures
        b == has_dynamic_fixed_array(text@),
{
    let t = text.as_str();
    let n = t.unicode_len();
    let base = (n >= 6 && t.get_char(0) == 'b' && t.get_char(1) == 'y' && t.get_char(2) == 't'
        && t.get_char(3) == 'e' && t.get_char(4) == 's' && t.get_char(5) == '[')
        || (n >= 7 && t.get_char(0) == 's' && t.get_char(1) == 't' && t.get_char(2) == 'r'
        && t.get_char(3) == 'i' && t.get_char(4) == 'n' && t.get_char(5) == 'g' && t.get_char(6) == '[');
    assert(base == dynamic_base(t@)) by {
        if n >= 6 {
            assert(t@.take(6) =~= seq![t@[0], t@[1], t@[2], t@[3], t@[4], t@[5]]);
        }
        if n >= 7 {
            assert(t@.take(7) =~= seq![t@[0], t@[1], t@[2], t@[3], t@[4], t@[5], t@[6]]);
        }
    }
    let mut seen = base;
    let mut j: usize = 0;
    while j < n
        invariant
            n == t@.len(),
            t@ == text@,
            base == dynamic_base(t@),
            j <= n,
            seen == (base || exists|i: int| i < j && #[trigger] opens_dynamic_array(t@, i)),
            forall|k: int| 0 <= k < j && #[trigger] opens_fixed_array(t@, k)
                ==> !(base || exists|i: int| i < k && #[trigger] opens_dynamic_array(t@, i)),
        decreases n - j,
    {
        if j + 1 < n && t.get_char(j) == '[' {
            if t.get_char(j + 1) == ']' {
                assert(opens_dynamic_array(t@, j as int));
                seen = true;
            } else if seen {
                assert(opens_fixed_array(t@, j as int));
                return true;
            }
        }
        assert forall|i: int| i < j + 1 && #[trigger] opens_dynamic_array(t@, i) implies
            (i < j || i == j) by {}
        j = j + 1;
    }
    assert forall|k: int| #[trigger] opens_fixed_array(t@, k)
        implies !(base || exists|i: int| i < k && #[trigger] opens_dynamic_array(t@, i)) by {
        assert(k < j);
    }
    false
}

/// Whether the answers to a function decode without a panic: no output type
/// holds a fixed-size array of a dynamic type.
pub fn outputs_decode_safely(function: &ethabi::Function) -> (b: bool)
    ensures
        b == decodes_safely(*function),
{
    let types = output_types(function);
    let mut k: usize = 0;
    while k < types.len()
        invariant
            k <= types@.len(),
            types@ == abi_output_types(*function),
            forall|m: int| 0 <= m < k ==> !has_dynamic_fixed_array(#[trigger] abi_type_text(types@[m])),
        decreases types@.len() - k,
    {
        let text = type_text(&types[k]);
        if text_has_dynamic_fixed_array(&text) {
            return false;
        }
        k = k + 1;
    }
    true
}

/// What becomes of a decoding: the tokens as they are, or the ABI error as a
/// contract error.
pub fn abi_outcome(decoded: Result<Vec<ethabi::Token>, ethabi::ErrorKind>) -> (r: Result<Vec<ethabi::Token>, Error>)
    ensures
        match decoded {
            Ok(tokens) => r == Ok::<Vec<ethabi::Token>, Error>(tokens),
            Err(kind) => r == Err::<Vec<ethabi::Token>, Error>(Error::Abi(kind)),
        },
{
    match decoded {
        Ok(tokens) => Ok(tokens),
        Err(kind) => Err(Error::Abi(kind)),
    }
}

/// Contract call/query error.
#[derive(Debug)]
pub enum Error {
    /// The ABI could not encode or decode.
    Abi(ethabi::ErrorKind),
    /// The transport or the server failed.
    Api(crate::error::Error),
    /// Invalid output type requested by the caller.
    InvalidOutputType(String),
}

/// Where a call or query stands.
#[derive(Debug)]
pub enum ResultType<T, F> {
    /// Waits on the transport for bytes that the function decodes.
    Decodable(F, ethabi::Function),
    /// Waits on the transport for the value itself.
    Simple(F),
    /// Holds an outcome known in advance.
    Constant(Result<T, Error>),
    /// Has yielded its outcome.
    Done,
}

/// A standard function (RPC) call result.
/// Takes any type which is deserializable from JSON,
/// a function definition and a future which yields that type.
#[derive(Debug)]
pub struct CallFuture<T, F> {
    pub inner: ResultType<T, F>,
}

/// Function-specific bytes-decoder future.
/// Takes any type which is deserializable from `Vec<ethabi::Token>`,
/// a function definition and a future which yields that type.
#[derive(Debug)]
pub struct QueryResult<T, F> {
    pub inner: ResultType<T, F>,
}

/// An error of the transport, as a contract error.
pub fn api_error(e: crate::error::Error) -> (r: Error)
    ensures
        r == Error::Api(e),
{
    Error::Api(e)
}

/// Yields the outcome held in advance and leaves the state done.
fn finish<T, F>(inner: &mut ResultType<T, F>) -> (r: Result<T, Error>)
    requires
        *old(inner) is Constant,
    ensures
        *old(inner) matches ResultType::Constant(res) && r == res,
        *final(inner) is Done,
{
    let mut state = ResultType::Done;
    std::mem::swap(&mut state, inner);
    match state {
        ResultType::Constant(res) => res,
        _ => {
            proof {
                assert(false);
            }
            Err(Error::InvalidOutputType(String::new()))
        },
    }
}

impl<T, F> CallFuture<T, F> {
    /// A call waiting on the transport's future.
    pub fn new(inner: F) -> (c: Self)
        ensures
            c.inner == ResultType::<T, F>::Simple(inner),
    {
        CallFuture { inner: ResultType::Simple(inner) }
    }

    /// A call that fails with `e` without asking the transport.
    pub fn from_error(e: Error) -> (c: Self)
        ensures
            c.inner == ResultType::<T, F>::Constant(Err(e)),
    {
        CallFuture { inner: ResultType::Constant(Err(e)) }
    }

    /// Yields the outcome held in advance, once.
    pub fn finish(&mut self) -> (r: Result<T, Error>)
        requires
            old(self).inner is Constant,
        ensures
            old(self).inner matches ResultType::Constant(res) && r == res,
            final(self).inner is Done,
    {
        finish(&mut self.inner)
    }
}

impl<T, F> QueryResult<T, F> {
    /// Create a new `QueryResult` wrapping the inner future.
    pub fn new(inner: F, function: ethabi::Function) -> (q: Self)
        ensures
            q.inner == ResultType::<T, F>::Decodable(inner, function),
    {
        QueryResult { inner: ResultType::Decodable(inner, function) }
    }

    /// Decodes the answer to the query with its function; an ABI error becomes a
    /// contract error. The function's answers must decode without a panic.
    pub fn decode(&self, data: &[u8]) -> (r: Result<Vec<ethabi::Token>, Error>)
        requires
            self.inner matches ResultType::Decodable(_, function) && decodes_safely(function),
        ensures
            self.inner matches ResultType::Decodable(_, function) && match (r, abi_decoded(function, data@)) {
                (Ok(v), Ok(t)) => v@ == t,
                (Err(e), Err(k)) => e == Error::Abi(k),
                _ => false,
            },
    {
        match &self.inner {
            ResultType::Decodable(_, function) => abi_outcome(decode_output_tokens(function, data)),
            _ => {
                proof {
                    assert(false);
                }
                Err(Error::InvalidOutputType(String::new()))
            },
        }
    }

    /// Decodes the answer to the query as `decode` does when the query's
    /// function decodes without a panic; gives `None` for a function with an
    /// output that is a fixed-size array of a dynamic type.
    pub fn try_decode(&self, data: &[u8]) -> (r: Option<Result<Vec<ethabi::Token>, Error>>)
        requires
            self.inner is Decodable,
        ensures
            self.inner matches ResultType::Decodable(_, function) && if decodes_safely(function) {
                r matches Some(res) && match (res, abi_decoded(function, data@)) {
                    (Ok(v), Ok(t)) => v@ == t,
                    (Err(e), Err(k)) => e == Error::Abi(k),
                    _ => false,
                }
            } else {
                r is None
            },
    {
        match &self.inner {
            ResultType::Decodable(_, function) => if outputs_decode_safely(function) {
                Some(self.decode(data))
            } else {
                None
            },
            _ => {
                proof {
                    assert(false);
                }
                None
            },
        }
    }

    /// A query that fails with `e` without asking the transport.
    pub fn from_error(e: Error) -> (q: Self)
        ensures
            q.inner == ResultType::<T, F>::Constant(Err(e)),
    {
        QueryResult { inner: ResultType::Constant(Err(e)) }
    }

    /// Yields the outcome held in advance, once.
    pub fn finish(&mut self) -> (r: Result<T, Error>)
        requires
            old(self).inner is Constant,
        ensures
            old(self).inner matches ResultType::Constant(res) && r == res,
            final(self).inner is Done,
    {
        finish(&mut self.inner)
    }
}

} // verus!
