use ethabi::{Function, Param, ParamType, Token};
use web3::contract::{CallFuture, Error, QueryResult, ResultType, abi_outcome, api_error, outputs_decode_safely};

fn balance_of() -> Function {
    Function {
        name: "balanceOf".into(),
        inputs: vec![],
        outputs: vec![Param { name: "".into(), kind: ParamType::Uint(256) }],
        constant: true,
    }
}

#[test]
fn constant_outcome_is_yielded_once() {
    let mut call: CallFuture<u32, ()> = CallFuture::from_error(Error::InvalidOutputType("bad".into()));
    match call.finish() {
        Err(Error::InvalidOutputType(m)) => assert_eq!(m, "bad"),
        other => panic!("unexpected {:?}", other),
    }
    assert!(matches!(call.inner, ResultType::Done));
    let waiting: CallFuture<u32, u8> = CallFuture::new(4);
    assert!(matches!(waiting.inner, ResultType::Simple(4)));
}

#[test]
fn query_decodes_with_its_function() {
    let query: QueryResult<u32, ()> = QueryResult::new((), balance_of());
    let mut data = [0u8; 32];
    data[31] = 5;
    let tokens = query.decode(&data).unwrap();
    assert_eq!(tokens, vec![Token::Uint(5.into())]);
    assert!(matches!(query.decode(&data[..4]), Err(Error::Abi(_))));
    let mut failed: QueryResult<u32, ()> = QueryResult::from_error(api_error(web3::error::Error::Transport("t".into())));
    assert!(matches!(failed.finish(), Err(Error::Api(web3::error::Error::Transport(_)))));
}

#[test]
fn abi_outcome_keeps_tokens_and_wraps_errors() {
    let tokens = vec![Token::Bool(true)];
    assert_eq!(abi_outcome(Ok(tokens.clone())).unwrap(), tokens);
    assert!(matches!(abi_outcome(Err(ethabi::ErrorKind::InvalidData)), Err(Error::Abi(ethabi::ErrorKind::InvalidData))));
}

fn function_returning(kinds: Vec<ParamType>) -> Function {
    Function {
        name: "f".into(),
        inputs: vec![],
        outputs: kinds.into_iter().map(|kind| Param { name: "".into(), kind }).collect(),
        constant: true,
    }
}

#[test]
fn outputs_with_dynamic_fixed_arrays_are_not_decoded() {
    let arr = |t: ParamType, n: usize| ParamType::FixedArray(Box::new(t), n);
    let dynarr = |t: ParamType| ParamType::Array(Box::new(t));
    assert!(outputs_decode_safely(&balance_of()));
    assert!(outputs_decode_safely(&function_returning(vec![arr(ParamType::Uint(256), 2)])));
    assert!(outputs_decode_safely(&function_returning(vec![dynarr(arr(ParamType::Uint(256), 2))])));
    assert!(outputs_decode_safely(&function_returning(vec![arr(ParamType::FixedBytes(32), 2), ParamType::String])));
    assert!(!outputs_decode_safely(&function_returning(vec![arr(ParamType::String, 1)])));
    assert!(!outputs_decode_safely(&function_returning(vec![ParamType::Bool, arr(ParamType::Bytes, 3)])));
    assert!(!outputs_decode_safely(&function_returning(vec![arr(dynarr(ParamType::Bool), 2)])));

    // One word holding 64: an offset past the answer's end.
    let mut data = [0u8; 32];
    data[31] = 64;
    let query: QueryResult<u32, ()> = QueryResult::new((), function_returning(vec![arr(ParamType::String, 1)]));
    assert!(query.try_decode(&data).is_none());
    let query: QueryResult<u32, ()> = QueryResult::new((), balance_of());
    assert_eq!(query.try_decode(&data).unwrap().unwrap(), vec![Token::Uint(64.into())]);
}
