use wasm::error::Error;
use wasm::execution::Budget;
use wasm::instance::{HostGlobal, InvokeError, RuntimeInstance};
use wasm::module::{decode_module, ExportDesc};
use wasm::numeric::Trap;
use wasm::types::Value;
use wasm::validation::validate;

const I32: u8 = 0x7f;
const I64: u8 = 0x7e;

fn leb(mut n: u32) -> Vec<u8> {
    let mut out = Vec::new();
    loop {
        let b = (n & 0x7f) as u8;
        n >>= 7;
        if n == 0 {
            out.push(b);
            return out;
        }
        out.push(b | 0x80);
    }
}

fn sleb(mut n: i64) -> Vec<u8> {
    let mut out = Vec::new();
    loop {
        let b = (n & 0x7f) as u8;
        n >>= 7;
        if (n == 0 && b & 0x40 == 0) || (n == -1 && b & 0x40 != 0) {
            out.push(b);
            return out;
        }
        out.push(b | 0x80);
    }
}

fn cat(parts: Vec<Vec<u8>>) -> Vec<u8> {
    parts.into_iter().flatten().collect()
}

fn vec_of(items: Vec<Vec<u8>>) -> Vec<u8> {
    let mut out = leb(items.len() as u32);
    for item in items {
        out.extend(item);
    }
    out
}

fn section(id: u8, body: Vec<u8>) -> Vec<u8> {
    cat(vec![vec![id], leb(body.len() as u32), body])
}

fn func_type(params: &[u8], results: &[u8]) -> Vec<u8> {
    cat(vec![vec![0x60], leb(params.len() as u32), params.to_vec(), leb(results.len() as u32), results.to_vec()])
}

fn body(locals: Vec<(u32, u8)>, code: Vec<u8>) -> Vec<u8> {
    let groups = vec_of(locals.into_iter().map(|(n, t)| cat(vec![leb(n), vec![t]])).collect());
    let inner = cat(vec![groups, code, vec![0x0b]]);
    cat(vec![leb(inner.len() as u32), inner])
}

fn name(s: &str) -> Vec<u8> {
    cat(vec![leb(s.len() as u32), s.as_bytes().to_vec()])
}

fn module(sections: Vec<Vec<u8>>) -> Vec<u8> {
    cat(vec![vec![0x00, 0x61, 0x73, 0x6d, 0x01, 0x00, 0x00, 0x00], cat(sections)])
}

fn i32_const(n: i32) -> Vec<u8> {
    cat(vec![vec![0x41], sleb(n as i64)])
}

fn i64_const(n: i64) -> Vec<u8> {
    cat(vec![vec![0x42], sleb(n)])
}

fn budget() -> Budget {
    Budget { call_depth: 64, loop_iterations: 1_000_000 }
}

/// A module with functions of the given signatures and bodies, one page of
/// memory unless `pages` says otherwise.
fn simple_module(funcs: Vec<(Vec<u8>, Vec<u8>)>, pages: Option<u32>) -> Vec<u8> {
    let n = funcs.len();
    let mut sections = vec![
        section(1, vec_of(funcs.iter().map(|f| f.0.clone()).collect())),
        section(3, vec_of((0..n).map(|i| leb(i as u32)).collect())),
    ];
    if let Some(p) = pages {
        sections.push(section(5, vec_of(vec![cat(vec![vec![0x00], leb(p)])])));
    }
    sections.push(section(10, vec_of(funcs.iter().map(|f| f.1.clone()).collect())));
    module(sections)
}

fn scenario_module() -> Vec<u8> {
    module(vec![
        section(
            1,
            vec_of(vec![
                func_type(&[I32], &[I32]),
                func_type(&[I32, I32], &[I32]),
                func_type(&[I32], &[]),
                func_type(&[], &[I32]),
            ]),
        ),
        section(3, vec_of(vec![leb(0), leb(1), leb(2), leb(3)])),
        section(5, vec_of(vec![vec![0x00, 0x01]])),
        section(
            7,
            vec_of(vec![
                cat(vec![name("store_num"), vec![0x00, 2]]),
                cat(vec![name("load_num"), vec![0x00, 3]]),
                cat(vec![name("add_one"), vec![0x00, 0]]),
                cat(vec![name("add"), vec![0x00, 1]]),
            ]),
        ),
        section(
            10,
            vec_of(vec![
                body(vec![(1, I32)], cat(vec![vec![0x20, 0], i32_const(1), vec![0x6a]])),
                body(vec![], vec![0x20, 1, 0x20, 0, 0x6a]),
                body(vec![], cat(vec![i32_const(0), vec![0x20, 0, 0x36, 2, 0]])),
                body(vec![], cat(vec![i32_const(0), vec![0x28, 2, 0]])),
            ]),
        ),
    ])
}

/// Validates, instantiates and calls function 0 of a module of one function.
fn run1(sig: Vec<u8>, code: Vec<u8>, args: Vec<Value>) -> Result<Vec<Value>, InvokeError> {
    let bytes = simple_module(vec![(sig, body(vec![], code))], Some(1));
    let info = validate(&bytes).expect("the module is valid");
    let mut instance = RuntimeInstance::new(&info).expect("the module instantiates");
    instance.invoke_func(0, args, budget())
}

fn check1(sig: Vec<u8>, code: Vec<u8>) -> Result<(), Error> {
    let bytes = simple_module(vec![(sig, body(vec![], code))], Some(1));
    validate(&bytes).map(|_| ())
}

fn binop32(op: u8, a: i32, b: i32) -> Result<Vec<Value>, InvokeError> {
    run1(func_type(&[], &[I32]), cat(vec![i32_const(a), i32_const(b), vec![op]]), vec![])
}

fn binop64(op: u8, a: i64, b: i64) -> Result<Vec<Value>, InvokeError> {
    run1(func_type(&[], &[I64]), cat(vec![i64_const(a), i64_const(b), vec![op]]), vec![])
}

fn ok32(n: i32) -> Result<Vec<Value>, InvokeError> {
    Ok(vec![Value::I32(n as u32)])
}

fn ok64(n: i64) -> Result<Vec<Value>, InvokeError> {
    Ok(vec![Value::I64(n as u64)])
}

#[test]
fn scenario_add_add_one_store_load() {
    let bytes = scenario_module();
    let info = validate(&bytes).unwrap();
    let mut instance = RuntimeInstance::new(&info).unwrap();
    let twelve = instance.invoke_func(1, vec![Value::I32(5), Value::I32(7)], budget());
    assert_eq!(twelve, Ok(vec![Value::I32(12)]));
    assert_eq!(instance.invoke_func(0, vec![Value::I32(12)], budget()), Ok(vec![Value::I32(13)]));
    assert_eq!(instance.invoke_func(2, vec![Value::I32(42)], budget()), Ok(vec![]));
    assert_eq!(instance.invoke_func(3, vec![], budget()), Ok(vec![Value::I32(42)]));
    assert_eq!(instance.memory_byte(0), Some(42));
    assert_eq!(instance.memory_size(), 65536);
}

#[test]
fn exports_are_found_by_name() {
    let bytes = scenario_module();
    let info = validate(&bytes).unwrap();
    assert_eq!(info.find_export(b"add"), Some(ExportDesc::Func(1)));
    assert_eq!(info.find_export(b"add_one"), Some(ExportDesc::Func(0)));
    assert_eq!(info.find_export(b"store_num"), Some(ExportDesc::Func(2)));
    assert_eq!(info.find_export(b"load_num"), Some(ExportDesc::Func(3)));
    assert_eq!(info.find_export(b"ad"), None);
    assert_eq!(info.find_export(b""), None);
    assert_eq!(info.module().functions, vec![0, 1, 2, 3]);
    assert_eq!(info.bodies().len(), 4);
    assert_eq!(info.bodies()[0].locals.len(), 1);
    assert_eq!(info.env().funcs.len(), 4);
    assert_eq!(info.wasm(), &bytes[..]);
}

#[test]
fn call_with_missing_argument_fails_at_the_boundary() {
    let bytes = scenario_module();
    let info = validate(&bytes).unwrap();
    let mut instance = RuntimeInstance::new(&info).unwrap();
    assert_eq!(instance.invoke_func(0, vec![], budget()), Err(InvokeError::ArgumentMismatch));
    assert_eq!(instance.invoke_func(0, vec![Value::I64(1)], budget()), Err(InvokeError::ArgumentMismatch));
    assert_eq!(
        instance.invoke_func(0, vec![Value::I32(1), Value::I32(2)], budget()),
        Err(InvokeError::ArgumentMismatch)
    );
    assert_eq!(instance.invoke_func(1, vec![Value::I32(1)], budget()), Err(InvokeError::ArgumentMismatch));
    assert_eq!(instance.invoke_func(4, vec![], budget()), Err(InvokeError::UnknownFunction));
}

#[test]
fn code_count_mismatch_fails_decoding_before_bodies_are_looked_at() {
    let bytes = module(vec![
        section(1, vec_of(vec![func_type(&[], &[])])),
        section(3, vec_of(vec![leb(0), leb(0)])),
        section(10, vec_of(vec![cat(vec![leb(3), vec![0xff, 0xff, 0xff]])])),
    ]);
    assert_eq!(decode_module(&bytes).err(), Some(Error::FunctionCountMismatch));
    assert_eq!(validate(&bytes).err(), Some(Error::FunctionCountMismatch));
    let no_code = module(vec![section(1, vec_of(vec![func_type(&[], &[])])), section(3, vec_of(vec![leb(0)]))]);
    assert_eq!(validate(&no_code).err(), Some(Error::FunctionCountMismatch));
}

#[test]
fn same_call_on_fresh_instances_gives_the_same_result() {
    let bytes = scenario_module();
    let info = validate(&bytes).unwrap();
    let mut first = RuntimeInstance::new(&info).unwrap();
    let mut second = RuntimeInstance::new(&info).unwrap();
    for f in 0..4 {
        let args = match f {
            1 => vec![Value::I32(3), Value::I32(4)],
            3 => vec![],
            _ => vec![Value::I32(9)],
        };
        assert_eq!(first.invoke_func(f, args.clone(), budget()), second.invoke_func(f, args, budget()));
    }
    let trapping = simple_module(vec![(func_type(&[], &[]), body(vec![], vec![0x00]))], None);
    let info = validate(&trapping).unwrap();
    let a = RuntimeInstance::new(&info).unwrap().invoke_func(0, vec![], budget());
    let b = RuntimeInstance::new(&info).unwrap().invoke_func(0, vec![], budget());
    assert_eq!(a, Err(InvokeError::Trap(Trap::Unreachable)));
    assert_eq!(a, b);
}

#[test]
fn memory_access_out_of_bounds_traps() {
    let load = cat(vec![vec![0x20, 0], vec![0x28, 2, 0]]);
    let sig = func_type(&[I32], &[I32]);
    assert_eq!(run1(sig.clone(), load.clone(), vec![Value::I32(65532)]), ok32(0));
    assert_eq!(run1(sig.clone(), load.clone(), vec![Value::I32(65533)]), Err(InvokeError::Trap(Trap::OutOfBoundsMemory)));
    assert_eq!(
        run1(sig.clone(), load.clone(), vec![Value::I32(u32::MAX)]),
        Err(InvokeError::Trap(Trap::OutOfBoundsMemory))
    );
    // the offset is added without wrapping
    let load_far = cat(vec![vec![0x20, 0], vec![0x28, 2], leb(u32::MAX)]);
    assert_eq!(run1(sig.clone(), load_far, vec![Value::I32(1)]), Err(InvokeError::Trap(Trap::OutOfBoundsMemory)));
    // a memory of no pages: address 0 is out of bounds
    let empty = simple_module(vec![(sig.clone(), body(vec![], load))], Some(0));
    let info = validate(&empty).unwrap();
    let mut instance = RuntimeInstance::new(&info).unwrap();
    assert_eq!(instance.memory_size(), 0);
    assert_eq!(
        instance.invoke_func(0, vec![Value::I32(0)], budget()),
        Err(InvokeError::Trap(Trap::OutOfBoundsMemory))
    );
    let store8 = cat(vec![vec![0x20, 0], i32_const(7), vec![0x3a, 0, 0]]);
    let empty = simple_module(vec![(func_type(&[I32], &[]), body(vec![], store8.clone()))], Some(0));
    let info = validate(&empty).unwrap();
    let mut instance = RuntimeInstance::new(&info).unwrap();
    assert_eq!(
        instance.invoke_func(0, vec![Value::I32(0)], budget()),
        Err(InvokeError::Trap(Trap::OutOfBoundsMemory))
    );
    assert_eq!(run1(func_type(&[I32], &[]), store8.clone(), vec![Value::I32(65535)]), Ok(vec![]));
    assert_eq!(
        run1(func_type(&[I32], &[]), store8, vec![Value::I32(65536)]),
        Err(InvokeError::Trap(Trap::OutOfBoundsMemory))
    );
}

#[test]
fn stores_and_loads_are_little_endian_and_widen() {
    // store 0x8182_8384 at 16, then read parts of it
    let prelude = cat(vec![i32_const(16), i32_const(0x8182_8384u32 as i32), vec![0x36, 2, 0], i32_const(16)]);
    let sig = func_type(&[], &[I32]);
    assert_eq!(run1(sig.clone(), cat(vec![prelude.clone(), vec![0x2d, 0, 0]]), vec![]), ok32(0x84));
    assert_eq!(run1(sig.clone(), cat(vec![prelude.clone(), vec![0x2c, 0, 0]]), vec![]), ok32(-124));
    assert_eq!(run1(sig.clone(), cat(vec![prelude.clone(), vec![0x2f, 1, 0]]), vec![]), ok32(0x8384));
    assert_eq!(run1(sig.clone(), cat(vec![prelude.clone(), vec![0x2e, 1, 0]]), vec![]), ok32(0x8384 - 0x10000));
    assert_eq!(run1(sig.clone(), cat(vec![prelude.clone(), vec![0x2d, 0, 3]]), vec![]), ok32(0x81));
    let sig64 = func_type(&[], &[I64]);
    assert_eq!(run1(sig64.clone(), cat(vec![prelude.clone(), vec![0x35, 2, 0]]), vec![]), ok64(0x8182_8384));
    assert_eq!(
        run1(sig64.clone(), cat(vec![prelude.clone(), vec![0x34, 2, 0]]), vec![]),
        ok64(0x8182_8384u32 as i32 as i64)
    );
    assert_eq!(run1(sig64.clone(), cat(vec![prelude.clone(), vec![0x29, 3, 0]]), vec![]), ok64(0x8182_8384));
    let store64 = cat(vec![
        i32_const(8),
        i64_const(0x0102_0304_0506_0708),
        vec![0x37, 3, 0],
        i32_const(8),
        vec![0x28, 2, 4],
    ]);
    assert_eq!(run1(sig, store64, vec![]), ok32(0x0102_0304));
}

#[test]
fn what_a_trapped_call_wrote_stays_written() {
    let code = cat(vec![i32_const(3), i32_const(9), vec![0x3a, 0, 0], vec![0x00]]);
    let bytes = simple_module(vec![(func_type(&[], &[]), body(vec![], code))], Some(1));
    let info = validate(&bytes).unwrap();
    let mut instance = RuntimeInstance::new(&info).unwrap();
    assert_eq!(instance.memory_byte(3), Some(0));
    assert_eq!(instance.invoke_func(0, vec![], budget()), Err(InvokeError::Trap(Trap::Unreachable)));
    assert_eq!(instance.memory_byte(3), Some(9));
}

#[test]
fn integer_arithmetic_has_exact_results() {
    assert_eq!(binop32(0x6a, i32::MAX, 1), ok32(i32::MIN));
    assert_eq!(binop32(0x6b, 0, 1), ok32(-1));
    assert_eq!(binop32(0x6c, 0x10000, 0x10000), ok32(0));
    assert_eq!(binop32(0x6d, -7, 2), ok32(-3));
    assert_eq!(binop32(0x6e, -7, 2), ok32(((-7i32) as u32 / 2) as i32));
    assert_eq!(binop32(0x6f, -7, 2), ok32(-1));
    assert_eq!(binop32(0x6f, i32::MIN, -1), ok32(0));
    assert_eq!(binop32(0x70, -7, 2), ok32(1));
    assert_eq!(binop32(0x71, 0b1100, 0b1010), ok32(0b1000));
    assert_eq!(binop32(0x72, 0b1100, 0b1010), ok32(0b1110));
    assert_eq!(binop32(0x73, 0b1100, 0b1010), ok32(0b0110));
    assert_eq!(binop32(0x74, 1, 33), ok32(2));
    assert_eq!(binop32(0x75, -8, 1), ok32(-4));
    assert_eq!(binop32(0x76, -8, 1), ok32(0x7fff_fffc));
    assert_eq!(binop32(0x77, 0x8000_0001u32 as i32, 1), ok32(3));
    assert_eq!(binop32(0x78, 3, 1), ok32(0x8000_0001u32 as i32));
    assert_eq!(binop32(0x77, 5, 32), ok32(5));
    assert_eq!(binop64(0x7c, i64::MAX, 1), ok64(i64::MIN));
    assert_eq!(binop64(0x7f, -7, 2), ok64(-3));
    assert_eq!(binop64(0x81, -7, 2), ok64(-1));
    assert_eq!(binop64(0x86, 1, 65), ok64(2));
    assert_eq!(binop64(0x87, -8, 1), ok64(-4));
    assert_eq!(binop64(0x89, 1, 63), ok64(i64::MIN));
    assert_eq!(binop64(0x8a, 1, 1), ok64(i64::MIN));
}

#[test]
fn division_traps() {
    assert_eq!(binop32(0x6d, 1, 0), Err(InvokeError::Trap(Trap::DivisionByZero)));
    assert_eq!(binop32(0x6e, 1, 0), Err(InvokeError::Trap(Trap::DivisionByZero)));
    assert_eq!(binop32(0x6f, 1, 0), Err(InvokeError::Trap(Trap::DivisionByZero)));
    assert_eq!(binop32(0x70, 1, 0), Err(InvokeError::Trap(Trap::DivisionByZero)));
    assert_eq!(binop32(0x6d, i32::MIN, -1), Err(InvokeError::Trap(Trap::IntegerOverflow)));
    assert_eq!(binop64(0x7f, i64::MIN, -1), Err(InvokeError::Trap(Trap::IntegerOverflow)));
    assert_eq!(binop64(0x80, 5, 0), Err(InvokeError::Trap(Trap::DivisionByZero)));
}

#[test]
fn comparisons_tests_and_bit_counts() {
    assert_eq!(binop32(0x48, -1, 1), ok32(1));
    assert_eq!(binop32(0x49, -1, 1), ok32(0));
    assert_eq!(binop32(0x4e, 1, 1), ok32(1));
    assert_eq!(binop32(0x4b, -1, 1), ok32(1));
    assert_eq!(binop32(0x46, 4, 4), ok32(1));
    assert_eq!(binop32(0x47, 4, 4), ok32(0));
    let sig = func_type(&[], &[I32]);
    assert_eq!(run1(sig.clone(), cat(vec![i32_const(0), vec![0x45]]), vec![]), ok32(1));
    assert_eq!(run1(sig.clone(), cat(vec![i64_const(5), vec![0x50]]), vec![]), ok32(0));
    assert_eq!(run1(sig.clone(), cat(vec![i64_const(-1), i64_const(1), vec![0x53]]), vec![]), ok32(1));
    assert_eq!(run1(sig.clone(), cat(vec![i32_const(1), vec![0x67]]), vec![]), ok32(31));
    assert_eq!(run1(sig.clone(), cat(vec![i32_const(0), vec![0x67]]), vec![]), ok32(32));
    assert_eq!(run1(sig.clone(), cat(vec![i32_const(8), vec![0x68]]), vec![]), ok32(3));
    assert_eq!(run1(sig.clone(), cat(vec![i32_const(0xff), vec![0x69]]), vec![]), ok32(8));
    assert_eq!(run1(sig.clone(), cat(vec![i32_const(-1), vec![0x69]]), vec![]), ok32(32));
    let sig64 = func_type(&[], &[I64]);
    assert_eq!(run1(sig64.clone(), cat(vec![i64_const(1), vec![0x79]]), vec![]), ok64(63));
    assert_eq!(run1(sig64.clone(), cat(vec![i64_const(0), vec![0x7a]]), vec![]), ok64(64));
    assert_eq!(run1(sig64.clone(), cat(vec![i64_const(-1), vec![0x7b]]), vec![]), ok64(64));
}

#[test]
fn conversions() {
    let sig = func_type(&[], &[I32]);
    let sig64 = func_type(&[], &[I64]);
    assert_eq!(run1(sig.clone(), cat(vec![i64_const(0x1_0000_0005), vec![0xa7]]), vec![]), ok32(5));
    assert_eq!(run1(sig64.clone(), cat(vec![i32_const(-1), vec![0xac]]), vec![]), ok64(-1));
    assert_eq!(run1(sig64.clone(), cat(vec![i32_const(-1), vec![0xad]]), vec![]), ok64(0xffff_ffff));
    assert_eq!(run1(sig.clone(), cat(vec![i32_const(0x80), vec![0xc0]]), vec![]), ok32(-128));
    assert_eq!(run1(sig.clone(), cat(vec![i32_const(0x17fff), vec![0xc1]]), vec![]), ok32(0x7fff));
    assert_eq!(run1(sig64.clone(), cat(vec![i64_const(0xff), vec![0xc2]]), vec![]), ok64(-1));
    assert_eq!(run1(sig64.clone(), cat(vec![i64_const(0x8000), vec![0xc3]]), vec![]), ok64(-32768));
    assert_eq!(run1(sig64.clone(), cat(vec![i64_const(0x8000_0000), vec![0xc4]]), vec![]), ok64(i32::MIN as i64));
    // a float constant is carried by its bits
    let f32_one = cat(vec![vec![0x43, 0x00, 0x00, 0x80, 0x3f], vec![0xbc]]);
    assert_eq!(run1(sig, f32_one, vec![]), ok32(0x3f80_0000));
    let f64_bits = cat(vec![vec![0x44, 1, 2, 3, 4, 5, 6, 7, 8], vec![0xbd]]);
    assert_eq!(run1(sig64, f64_bits, vec![]), ok64(0x0807_0605_0403_0201));
}

#[test]
fn loop_sums_and_budget_limits_it() {
    // local 1 = sum; loop { sum += n; n -= 1; br_if 0 (n != 0) }
    let code = cat(vec![
        vec![0x03, 0x40],
        vec![0x20, 1, 0x20, 0, 0x6a, 0x21, 1],
        vec![0x20, 0],
        i32_const(1),
        vec![0x6b, 0x22, 0],
        vec![0x0d, 0],
        vec![0x0b],
        vec![0x20, 1],
    ]);
    let bytes = simple_module(vec![(func_type(&[I32], &[I32]), body(vec![(1, I32)], code))], None);
    let info = validate(&bytes).unwrap();
    let mut instance = RuntimeInstance::new(&info).unwrap();
    assert_eq!(instance.invoke_func(0, vec![Value::I32(100)], budget()), ok32(5050));
    let tight = Budget { call_depth: 4, loop_iterations: 98 };
    assert_eq!(instance.invoke_func(0, vec![Value::I32(100)], tight), Err(InvokeError::Trap(Trap::IterationLimit)));
    let enough = Budget { call_depth: 4, loop_iterations: 99 };
    assert_eq!(instance.invoke_func(0, vec![Value::I32(100)], enough), ok32(5050));
}

#[test]
fn blocks_branches_and_if() {
    let sig = func_type(&[I32], &[I32]);
    // if (x) { 10 } else { 20 }
    let choose = cat(vec![vec![0x20, 0, 0x04, I32], i32_const(10), vec![0x05], i32_const(20), vec![0x0b]]);
    assert_eq!(run1(sig.clone(), choose.clone(), vec![Value::I32(1)]), ok32(10));
    assert_eq!(run1(sig.clone(), choose, vec![Value::I32(0)]), ok32(20));
    // if without else
    let maybe = cat(vec![vec![0x20, 0, 0x04, 0x40], i32_const(2), vec![0x21, 0, 0x0b, 0x20, 0]]);
    assert_eq!(run1(sig.clone(), maybe.clone(), vec![Value::I32(1)]), ok32(2));
    assert_eq!(run1(sig.clone(), maybe, vec![Value::I32(0)]), ok32(0));
    // a branch out of a block carries the block's result past what lies below it
    let carry = cat(vec![vec![0x02, I32], i32_const(1), i32_const(2), i32_const(3), vec![0x0c, 0, 0x0b]]);
    assert_eq!(run1(sig.clone(), carry, vec![Value::I32(0)]), ok32(3));
    // a branch to the outermost label returns
    let out = cat(vec![vec![0x02, 0x40], i32_const(7), vec![0x0c, 1, 0x0b], i32_const(8)]);
    assert_eq!(run1(sig.clone(), out, vec![Value::I32(0)]), ok32(7));
    // return from inside nested blocks
    let ret = cat(vec![vec![0x02, 0x40, 0x02, 0x40], i32_const(5), vec![0x0f, 0x0b, 0x0b], i32_const(6)]);
    assert_eq!(run1(sig.clone(), ret, vec![Value::I32(0)]), ok32(5));
    // br_table: 0 -> 100, 1 -> 200, else -> 300
    let table = cat(vec![
        vec![0x02, 0x40, 0x02, 0x40, 0x02, 0x40, 0x20, 0, 0x0e, 2, 0, 1, 2, 0x0b],
        i32_const(100),
        vec![0x0f, 0x0b],
        i32_const(200),
        vec![0x0f, 0x0b],
        i32_const(300),
    ]);
    assert_eq!(run1(sig.clone(), table.clone(), vec![Value::I32(0)]), ok32(100));
    assert_eq!(run1(sig.clone(), table.clone(), vec![Value::I32(1)]), ok32(200));
    assert_eq!(run1(sig.clone(), table.clone(), vec![Value::I32(2)]), ok32(300));
    assert_eq!(run1(sig.clone(), table, vec![Value::I32(77)]), ok32(300));
    // select and drop
    let select = cat(vec![i32_const(11), i32_const(22), vec![0x20, 0, 0x1b]]);
    assert_eq!(run1(sig.clone(), select.clone(), vec![Value::I32(1)]), ok32(11));
    assert_eq!(run1(sig.clone(), select, vec![Value::I32(0)]), ok32(22));
    // code behind unreachable is not run, and is accepted
    let dead = cat(vec![i32_const(1), vec![0x0f, 0x6a, 0x1a]]);
    assert_eq!(run1(sig, dead, vec![Value::I32(0)]), ok32(1));
}

#[test]
fn calls_recursion_and_call_depth() {
    // func 0: factorial(n) = n == 0 ? 1 : n * factorial(n - 1)
    let fact = cat(vec![
        vec![0x20, 0, 0x45, 0x04, I32],
        i32_const(1),
        vec![0x05, 0x20, 0, 0x20, 0],
        i32_const(1),
        vec![0x6b, 0x10, 0, 0x6c, 0x0b],
    ]);
    // func 1: forever() = forever()
    let forever = vec![0x10, 1];
    let bytes = module(vec![
        section(1, vec_of(vec![func_type(&[I32], &[I32]), func_type(&[], &[])])),
        section(3, vec_of(vec![leb(0), leb(1)])),
        section(10, vec_of(vec![body(vec![], fact), body(vec![], forever)])),
    ]);
    let info = validate(&bytes).unwrap();
    let mut instance = RuntimeInstance::new(&info).unwrap();
    assert_eq!(instance.invoke_func(0, vec![Value::I32(5)], budget()), ok32(120));
    assert_eq!(instance.invoke_func(0, vec![Value::I32(10)], budget()), ok32(3628800));
    assert_eq!(instance.invoke_func(1, vec![], budget()), Err(InvokeError::Trap(Trap::CallStackExhausted)));
    // every level of the recursion nests an `if` and a call
    let shallow = Budget { call_depth: 9, loop_iterations: 10 };
    assert_eq!(instance.invoke_func(0, vec![Value::I32(4)], shallow), ok32(24));
    assert_eq!(instance.invoke_func(0, vec![Value::I32(5)], shallow), Err(InvokeError::Trap(Trap::CallStackExhausted)));
    let none = Budget { call_depth: 0, loop_iterations: 10 };
    assert_eq!(instance.invoke_func(0, vec![Value::I32(0)], none), Err(InvokeError::Trap(Trap::CallStackExhausted)));
}

#[test]
fn indirect_calls_check_the_table_and_the_signature() {
    // table of 3: [func 0, func 1, empty]; func 2 calls table[x] as () -> i32
    let bytes = module(vec![
        section(1, vec_of(vec![func_type(&[], &[I32]), func_type(&[], &[I64]), func_type(&[I32], &[I32])])),
        section(3, vec_of(vec![leb(0), leb(1), leb(2)])),
        section(4, vec_of(vec![vec![0x70, 0x00, 3]])),
        section(9, vec_of(vec![cat(vec![leb(0), i32_const(0), vec![0x0b], vec_of(vec![leb(0), leb(1)])])])),
        section(
            10,
            vec_of(vec![
                body(vec![], i32_const(41)),
                body(vec![], i64_const(42)),
                body(vec![], vec![0x20, 0, 0x11, 0, 0]),
            ]),
        ),
    ]);
    let info = validate(&bytes).unwrap();
    let mut instance = RuntimeInstance::new(&info).unwrap();
    assert_eq!(instance.invoke_func(2, vec![Value::I32(0)], budget()), ok32(41));
    assert_eq!(
        instance.invoke_func(2, vec![Value::I32(1)], budget()),
        Err(InvokeError::Trap(Trap::IndirectCallTypeMismatch))
    );
    assert_eq!(instance.invoke_func(2, vec![Value::I32(2)], budget()), Err(InvokeError::Trap(Trap::UndefinedElement)));
    assert_eq!(instance.invoke_func(2, vec![Value::I32(3)], budget()), Err(InvokeError::Trap(Trap::UndefinedElement)));
}

#[test]
fn globals_data_segments_and_start_function() {
    // global 0: mut i32 = 5 + 6; func 0 (start): global 0 += 1; func 1: global.get 0; func 2: load8_u 100
    let types = section(1, vec_of(vec![func_type(&[], &[]), func_type(&[], &[I32])]));
    let funcs = section(3, vec_of(vec![leb(0), leb(1), leb(1)]));
    let memory = section(5, vec_of(vec![vec![0x01, 1, 2]]));
    let globals = section(6, vec_of(vec![cat(vec![vec![I32, 0x01], i32_const(5), i32_const(6), vec![0x6a, 0x0b]])]));
    let start = section(8, leb(0));
    let code = section(
        10,
        vec_of(vec![
            body(vec![], cat(vec![vec![0x23, 0], i32_const(1), vec![0x6a, 0x24, 0]])),
            body(vec![], vec![0x23, 0]),
            body(vec![], cat(vec![i32_const(100), vec![0x2d, 0, 0]])),
        ]),
    );
    let data = section(11, vec_of(vec![cat(vec![leb(0), i32_const(99), vec![0x0b], leb(3), vec![7, 8, 9]])]));
    // the data section stands behind the code section
    let misplaced = module(vec![
        types.clone(),
        funcs.clone(),
        memory.clone(),
        globals.clone(),
        start.clone(),
        data.clone(),
        code.clone(),
    ]);
    assert_eq!(validate(&misplaced).err(), Some(Error::SectionOutOfOrder(10)));
    let bytes = module(vec![types, funcs, memory, globals, start, code, data]);
    let info = validate(&bytes).unwrap();
    let mut instance = RuntimeInstance::new(&info).unwrap();
    assert_eq!(instance.global(0), Some(Value::I32(12)));
    assert_eq!(instance.global(1), None);
    assert_eq!(instance.invoke_func(1, vec![], budget()), ok32(12));
    assert_eq!(instance.invoke_func(2, vec![], budget()), ok32(8));
    assert_eq!(instance.memory_byte(99), Some(7));
    assert_eq!(instance.memory_byte(101), Some(9));
    assert_eq!(instance.memory_byte(102), Some(0));
}

#[test]
fn memory_grows_up_to_its_maximum() {
    // memory 1..2; func 0: memory.grow(x); func 1: memory.size
    let bytes = module(vec![
        section(1, vec_of(vec![func_type(&[I32], &[I32]), func_type(&[], &[I32])])),
        section(3, vec_of(vec![leb(0), leb(1)])),
        section(5, vec_of(vec![vec![0x01, 1, 2]])),
        section(10, vec_of(vec![body(vec![], vec![0x20, 0, 0x40, 0]), body(vec![], vec![0x3f, 0])])),
    ]);
    let info = validate(&bytes).unwrap();
    let mut instance = RuntimeInstance::new(&info).unwrap();
    assert_eq!(instance.invoke_func(1, vec![], budget()), ok32(1));
    assert_eq!(instance.invoke_func(0, vec![Value::I32(2)], budget()), ok32(-1));
    assert_eq!(instance.invoke_func(0, vec![Value::I32(1)], budget()), ok32(1));
    assert_eq!(instance.invoke_func(1, vec![], budget()), ok32(2));
    assert_eq!(instance.memory_size(), 2 * 65536);
    assert_eq!(instance.memory_byte(2 * 65536 - 1), Some(0));
    assert_eq!(instance.invoke_func(0, vec![Value::I32(1)], budget()), ok32(-1));
    assert_eq!(instance.invoke_func(0, vec![Value::I32(0)], budget()), ok32(2));
}

#[test]
fn instantiation_failures() {
    // an active data segment beyond the memory
    let bytes = module(vec![
        section(5, vec_of(vec![vec![0x00, 1]])),
        section(11, vec_of(vec![cat(vec![leb(0), i32_const(65535), vec![0x0b], leb(2), vec![1, 2]])])),
    ]);
    let info = validate(&bytes).unwrap();
    assert_eq!(RuntimeInstance::new(&info).err(), Some(Error::SegmentOutOfBounds));
    // an element segment beyond the table
    let bytes = module(vec![
        section(1, vec_of(vec![func_type(&[], &[])])),
        section(3, vec_of(vec![leb(0)])),
        section(4, vec_of(vec![vec![0x70, 0x00, 1]])),
        section(9, vec_of(vec![cat(vec![leb(0), i32_const(1), vec![0x0b], vec_of(vec![leb(0)])])])),
        section(10, vec_of(vec![body(vec![], vec![])])),
    ]);
    let info = validate(&bytes).unwrap();
    assert_eq!(RuntimeInstance::new(&info).err(), Some(Error::SegmentOutOfBounds));
    // a start function that traps
    let bytes = module(vec![
        section(1, vec_of(vec![func_type(&[], &[])])),
        section(3, vec_of(vec![leb(0)])),
        section(8, leb(0)),
        section(10, vec_of(vec![body(vec![], vec![0x00])])),
    ]);
    let info = validate(&bytes).unwrap();
    assert_eq!(RuntimeInstance::new(&info).err(), Some(Error::StartTrapped(Trap::Unreachable)));
    // an imported function cannot be resolved
    let bytes = module(vec![
        section(1, vec_of(vec![func_type(&[], &[])])),
        section(2, vec_of(vec![cat(vec![name("env"), name("f"), vec![0x00, 0]])])),
    ]);
    let info = validate(&bytes).unwrap();
    assert_eq!(RuntimeInstance::new(&info).err(), Some(Error::UnresolvedImport));
}

#[test]
fn imported_globals_are_bound_by_the_host() {
    // import global 0: const i64; global 1: i64 = global 0; func 0: global.get 1
    let bytes = module(vec![
        section(1, vec_of(vec![func_type(&[], &[I64])])),
        section(2, vec_of(vec![cat(vec![name("env"), name("g"), vec![0x03, I64, 0x00]])])),
        section(3, vec_of(vec![leb(0)])),
        section(6, vec_of(vec![cat(vec![vec![I64, 0x00], vec![0x23, 0, 0x0b]])])),
        section(10, vec_of(vec![body(vec![], vec![0x23, 1])])),
    ]);
    let info = validate(&bytes).unwrap();
    assert_eq!(RuntimeInstance::new(&info).err(), Some(Error::UnresolvedImport));
    assert_eq!(
        RuntimeInstance::instantiate(&info, &vec![Value::I32(1)], budget()).err(),
        Some(Error::ImportTypeMismatch)
    );
    let mut instance = RuntimeInstance::instantiate(&info, &vec![Value::I64(77)], budget()).unwrap();
    assert_eq!(instance.invoke_func(0, vec![], budget()), ok64(77));
    // by name: the first binding of the names counts
    let offer = |module: &str, name: &str, value: Value| HostGlobal {
        module: module.as_bytes().to_vec(),
        name: name.as_bytes().to_vec(),
        value,
    };
    let bindings = vec![
        offer("env", "h", Value::I64(1)),
        offer("other", "g", Value::I64(2)),
        offer("env", "g", Value::I64(3)),
        offer("env", "g", Value::I64(4)),
    ];
    let mut instance = RuntimeInstance::instantiate_with(&info, &bindings, budget()).unwrap();
    assert_eq!(instance.invoke_func(0, vec![], budget()), ok64(3));
    assert_eq!(instance.global(0), Some(Value::I64(3)));
    assert_eq!(instance.global(1), Some(Value::I64(3)));
    let missing = vec![offer("env", "h", Value::I64(1))];
    assert_eq!(RuntimeInstance::instantiate_with(&info, &missing, budget()).err(), Some(Error::UnresolvedImport));
    let mistyped = vec![offer("env", "g", Value::I32(1))];
    assert_eq!(RuntimeInstance::instantiate_with(&info, &mistyped, budget()).err(), Some(Error::ImportTypeMismatch));
}

#[test]
fn invalid_bodies_are_rejected() {
    let none = func_type(&[], &[]);
    let one = func_type(&[], &[I32]);
    assert_eq!(check1(none.clone(), vec![0x6a]), Err(Error::StackUnderflow));
    assert_eq!(check1(one.clone(), cat(vec![i32_const(1), vec![0x6a]])), Err(Error::StackUnderflow));
    assert_eq!(check1(one.clone(), cat(vec![i32_const(1), i64_const(1), vec![0x6a]])), Err(Error::TypeMismatch));
    assert_eq!(check1(one.clone(), i64_const(1)), Err(Error::TypeMismatch));
    assert_eq!(check1(one.clone(), vec![]), Err(Error::StackUnderflow));
    assert_eq!(check1(none.clone(), i32_const(1)), Err(Error::UnbalancedStack));
    assert_eq!(check1(one.clone(), cat(vec![i32_const(1), i32_const(2)])), Err(Error::UnbalancedStack));
    assert_eq!(check1(none.clone(), vec![0x0c, 1]), Err(Error::UnknownLabel));
    assert_eq!(check1(none.clone(), vec![0x02, 0x40, 0x0c, 2, 0x0b]), Err(Error::UnknownLabel));
    assert_eq!(check1(none.clone(), vec![0x20, 0]), Err(Error::UnknownLocal));
    assert_eq!(check1(none.clone(), vec![0x23, 0]), Err(Error::UnknownGlobal));
    assert_eq!(check1(none.clone(), vec![0x10, 1]), Err(Error::UnknownFunction));
    assert_eq!(check1(none.clone(), vec![0x02, 5, 0x0b]), Err(Error::UnknownType));
    assert_eq!(check1(none.clone(), cat(vec![i32_const(0), vec![0x11, 0, 0]])), Err(Error::UnknownTable));
    assert_eq!(check1(one.clone(), cat(vec![i32_const(0), vec![0x28, 3, 0]])), Err(Error::InvalidAlignment));
    // the block must leave its result
    assert_eq!(check1(one.clone(), vec![0x02, I32, 0x0b]), Err(Error::StackUnderflow));
    // a block cannot take what lies below it
    assert_eq!(check1(one.clone(), cat(vec![i32_const(1), vec![0x02, 0x40, 0x1a, 0x0b]])), Err(Error::StackUnderflow));
    // both arms of an if must leave the result
    assert_eq!(
        check1(one.clone(), cat(vec![i32_const(1), vec![0x04, I32], i32_const(1), vec![0x0b]])),
        Err(Error::StackUnderflow)
    );
    // an else without an if, and a missing end
    assert_eq!(check1(none.clone(), vec![0x05]), Err(Error::MisplacedElse));
    let open_block = simple_module(vec![(none.clone(), cat(vec![leb(3), vec![0x00, 0x02, 0x40]]))], None);
    assert!(validate(&open_block).is_err());
    // blocks may nest 256 deep and no deeper
    let nest = |n: usize| cat(vec![[0x02u8, 0x40].repeat(n), vec![0x0b; n]]);
    assert_eq!(check1(none.clone(), nest(256)), Ok(()));
    assert_eq!(check1(none.clone(), nest(257)), Err(Error::NestingTooDeep));
    // a memory instruction without a memory
    let no_memory = simple_module(vec![(one.clone(), body(vec![], cat(vec![i32_const(0), vec![0x28, 2, 0]])))], None);
    assert_eq!(validate(&no_memory).err(), Some(Error::UnknownMemory));
    // floating-point arithmetic is not supported
    assert_eq!(check1(none, vec![0x92]), Err(Error::UnsupportedInstruction(0x92)));
    // one bad function rejects the module, whatever the others hold
    let mixed = simple_module(
        vec![(one.clone(), body(vec![], i32_const(1))), (one, body(vec![], vec![0x1a]))],
        None,
    );
    assert_eq!(validate(&mixed).err(), Some(Error::StackUnderflow));
}

#[test]
fn malformed_modules_are_rejected() {
    assert_eq!(validate(&[]).err(), Some(Error::UnexpectedEof));
    assert_eq!(validate(&[0x00, 0x61, 0x73, 0x6e, 1, 0, 0, 0]).err(), Some(Error::InvalidMagic));
    assert_eq!(validate(&[0x00, 0x61, 0x73, 0x6d, 2, 0, 0, 0]).err(), Some(Error::InvalidVersion));
    assert_eq!(validate(&[0x00, 0x61, 0x73, 0x6d, 1, 0, 0]).err(), Some(Error::UnexpectedEof));
    assert!(validate(&module(vec![])).is_ok());
    assert_eq!(validate(&module(vec![vec![13, 0]])).err(), Some(Error::InvalidSectionType(13)));
    assert_eq!(validate(&module(vec![vec![1, 5, 0]])).err(), Some(Error::UnexpectedEof));
    assert_eq!(validate(&module(vec![section(1, vec![1, 0x60, 0])])).err(), Some(Error::UnexpectedEof));
    let overrun = module(vec![section(1, vec![1, 0x60, 0]), section(0, name("a"))]);
    assert_eq!(validate(&overrun).err(), Some(Error::SectionSizeMismatch(1)));
    assert_eq!(validate(&module(vec![section(1, vec![0, 0])])).err(), Some(Error::SectionSizeMismatch(1)));
    assert_eq!(validate(&module(vec![section(1, vec![1, 0x61, 0, 0])])).err(), Some(Error::InvalidFuncType(0x61)));
    assert_eq!(validate(&module(vec![section(1, vec![1, 0x60, 1, 0x7b, 0])])).err(), Some(Error::InvalidValType(0x7b)));
    let twice = module(vec![section(1, vec![0]), section(1, vec![0])]);
    assert_eq!(validate(&twice).err(), Some(Error::SectionOutOfOrder(1)));
    let order = module(vec![section(3, vec![0]), section(1, vec![0])]);
    assert_eq!(validate(&order).err(), Some(Error::SectionOutOfOrder(1)));
    // custom sections may stand anywhere
    let custom = module(vec![section(0, name("a")), section(1, vec![0]), section(0, name("b")), section(3, vec![0])]);
    assert!(validate(&custom).is_ok());
    assert_eq!(validate(&module(vec![section(5, vec![1, 2, 1])])).err(), Some(Error::InvalidLimits(2)));
    assert_eq!(validate(&module(vec![section(5, vec![1, 1, 2, 1])])).err(), Some(Error::LimitsOutOfRange));
    assert_eq!(validate(&module(vec![section(5, vec![2, 0, 1, 0, 1])])).err(), Some(Error::MultipleMemories));
    assert_eq!(validate(&module(vec![section(3, vec![1, 0])])).err(), Some(Error::FunctionCountMismatch));
    let bad_export = module(vec![section(7, vec_of(vec![cat(vec![name("f"), vec![0x00, 0]])]))]);
    assert_eq!(validate(&bad_export).err(), Some(Error::UnknownExport));
    let bad_global = module(vec![section(6, vec_of(vec![cat(vec![vec![I32, 0x00], vec![0x01, 0x0b]])]))]);
    assert_eq!(validate(&bad_global).err(), Some(Error::NotConstant));
    let wrong_global = module(vec![section(6, vec_of(vec![cat(vec![vec![I32, 0x00], i64_const(1), vec![0x0b]])]))]);
    assert_eq!(validate(&wrong_global).err(), Some(Error::TypeMismatch));
    let bad_start = module(vec![
        section(1, vec_of(vec![func_type(&[I32], &[])])),
        section(3, vec_of(vec![leb(0)])),
        section(8, leb(0)),
        section(10, vec_of(vec![body(vec![], vec![])])),
    ]);
    assert_eq!(validate(&bad_start).err(), Some(Error::InvalidStartFunction));
    let body_too_long = module(vec![
        section(1, vec_of(vec![func_type(&[], &[])])),
        section(3, vec_of(vec![leb(0)])),
        section(10, vec_of(vec![cat(vec![leb(3), vec![0x00, 0x0b, 0x01]])])),
    ]);
    assert_eq!(validate(&body_too_long).err(), Some(Error::BodySizeMismatch));
    let many_locals = simple_module(vec![(func_type(&[], &[]), body(vec![(50001, I32)], vec![]))], None);
    assert_eq!(validate(&many_locals).err(), Some(Error::TooManyLocals));
    let data_count = module(vec![section(12, leb(1))]);
    assert_eq!(validate(&data_count).err(), Some(Error::DataCountMismatch));
}

#[test]
fn validated_code_never_faults() {
    let sig = func_type(&[I32], &[I32]);
    let programs: Vec<Vec<u8>> = vec![
        cat(vec![vec![0x20, 0], i32_const(3), vec![0x6d]]),
        cat(vec![vec![0x20, 0, 0x28, 2, 0]]),
        cat(vec![vec![0x20, 0, 0x04, I32], i32_const(1), vec![0x05, 0x00, 0x0b]]),
        cat(vec![vec![0x02, I32, 0x20, 0, 0x20, 0, 0x0d, 0, 0x1a], i32_const(9), vec![0x0b]]),
        cat(vec![vec![0x20, 0, 0x20, 0, 0x20, 0, 0x1b]]),
    ];
    for code in programs {
        for x in [0u32, 1, 2, 65535, 65536, u32::MAX] {
            let r = run1(sig.clone(), code.clone(), vec![Value::I32(x)]);
            assert_ne!(r, Err(InvokeError::Fault));
            if let Ok(values) = r {
                assert_eq!(values.len(), 1);
                assert!(matches!(values[0], Value::I32(_)));
            }
        }
    }
}

#[test]
fn blocks_with_parameters_and_several_results() {
    // type 0: (i32) -> (i32), the function; type 1: (i32, i32) -> (i32, i32); type 2: () -> (i32, i32)
    let types = section(
        1,
        vec_of(vec![func_type(&[I32], &[I32]), func_type(&[I32, I32], &[I32, I32]), func_type(&[], &[I32, I32])]),
    );
    let run = |code: Vec<u8>, x: u32| {
        let bytes = module(vec![
            types.clone(),
            section(3, vec_of(vec![leb(0)])),
            section(10, vec_of(vec![body(vec![(1, I32)], code)])),
        ]);
        let info = validate(&bytes).expect("the module is valid");
        let mut instance = RuntimeInstance::new(&info).expect("the module instantiates");
        instance.invoke_func(0, vec![Value::I32(x)], budget())
    };
    // a block that takes its operand from the stack: x + 1
    let takes = cat(vec![vec![0x20, 0, 0x02, 0x00], i32_const(1), vec![0x6a, 0x0b]]);
    assert_eq!(run(takes, 41), ok32(42));
    // a block with two results, which are then subtracted: 10 - 3
    let two = cat(vec![vec![0x02, 0x02], i32_const(10), i32_const(3), vec![0x0b, 0x6b]]);
    assert_eq!(run(two, 0), ok32(7));
    // a loop with parameters (n, acc): while n != 0 { acc += n; n -= 1 }; the branch carries both
    let sum = cat(vec![
        vec![0x20, 0],
        i32_const(0),
        vec![0x03, 0x01],
        vec![0x21, 1, 0x21, 0],
        vec![0x20, 0, 0x04, 0x40],
        vec![0x20, 0],
        i32_const(1),
        vec![0x6b],
        vec![0x20, 1, 0x20, 0, 0x6a],
        vec![0x0c, 1],
        vec![0x0b],
        vec![0x20, 0, 0x20, 1],
        vec![0x0b],
        vec![0x21, 1, 0x1a, 0x20, 1],
    ]);
    assert_eq!(run(sum.clone(), 4), ok32(10));
    assert_eq!(run(sum, 0), ok32(0));
    // a block cannot take more than the stack holds
    let bytes = module(vec![
        types.clone(),
        section(3, vec_of(vec![leb(0)])),
        section(10, vec_of(vec![body(vec![], cat(vec![vec![0x20, 0, 0x02, 0x01, 0x0b, 0x1a]]))])),
    ]);
    assert_eq!(validate(&bytes).err(), Some(Error::StackUnderflow));
}

#[test]
fn remaining_decode_and_validation_errors() {
    let bad_mutability = module(vec![section(6, vec_of(vec![cat(vec![vec![I32, 0x02], i32_const(0), vec![0x0b]])]))]);
    assert_eq!(validate(&bad_mutability).err(), Some(Error::InvalidMutability(2)));
    let bad_import = module(vec![section(2, vec_of(vec![cat(vec![name("m"), name("f"), vec![0x04, 0]])]))]);
    assert_eq!(validate(&bad_import).err(), Some(Error::InvalidImportKind(4)));
    let bad_export = module(vec![section(7, vec_of(vec![cat(vec![name("f"), vec![0x05, 0]])]))]);
    assert_eq!(validate(&bad_export).err(), Some(Error::InvalidExportKind(5)));
    let bad_table = module(vec![section(4, vec_of(vec![vec![0x6f, 0x00, 1]]))]);
    assert_eq!(validate(&bad_table).err(), Some(Error::InvalidElemType(0x6f)));
    let bad_element = module(vec![section(9, vec_of(vec![cat(vec![leb(5), vec![0x70, 0]])]))]);
    assert_eq!(validate(&bad_element).err(), Some(Error::UnsupportedSegment(5)));
    let bad_data = module(vec![section(11, vec_of(vec![cat(vec![leb(3), vec![0]])]))]);
    assert_eq!(validate(&bad_data).err(), Some(Error::UnsupportedSegment(3)));
    // writing a constant global
    let constant_global = module(vec![
        section(1, vec_of(vec![func_type(&[], &[])])),
        section(3, vec_of(vec![leb(0)])),
        section(6, vec_of(vec![cat(vec![vec![I32, 0x00], i32_const(0), vec![0x0b]])])),
        section(10, vec_of(vec![body(vec![], cat(vec![i32_const(1), vec![0x24, 0]]))])),
    ]);
    assert_eq!(validate(&constant_global).err(), Some(Error::ImmutableGlobal));
    let none = func_type(&[], &[]);
    // a block type that is a negative number and no value type
    assert_eq!(check1(none.clone(), vec![0x02, 0x41, 0x0b]), Err(Error::InvalidBlockType));
    // the reserved byte of memory.size must be zero
    assert_eq!(check1(none.clone(), vec![0x3f, 0x01, 0x1a]), Err(Error::MalformedInstruction(0x3f)));
    assert_eq!(check1(none.clone(), vec![0x40, 0x01]), Err(Error::MalformedInstruction(0x40)));
    // a passive element segment and a passive data segment are decoded and left alone
    let passive = module(vec![
        section(1, vec_of(vec![func_type(&[], &[])])),
        section(3, vec_of(vec![leb(0)])),
        section(4, vec_of(vec![vec![0x70, 0x00, 1]])),
        section(5, vec_of(vec![vec![0x00, 1]])),
        section(9, vec_of(vec![cat(vec![leb(1), vec![0x00], vec_of(vec![leb(0)])])])),
        section(10, vec_of(vec![body(vec![], vec![])])),
        section(11, vec_of(vec![cat(vec![leb(1), leb(2), vec![5, 6]])])),
    ]);
    let info = validate(&passive).unwrap();
    let instance = RuntimeInstance::new(&info).unwrap();
    assert_eq!(instance.memory_byte(0), Some(0));
    // an element segment that names its table, and a data segment that names its memory
    let explicit = module(vec![
        section(1, vec_of(vec![func_type(&[], &[I32]), func_type(&[I32], &[I32])])),
        section(3, vec_of(vec![leb(0), leb(1)])),
        section(4, vec_of(vec![vec![0x70, 0x00, 1], vec![0x70, 0x00, 2]])),
        section(5, vec_of(vec![vec![0x00, 1]])),
        section(9, vec_of(vec![cat(vec![leb(2), leb(1), i32_const(1), vec![0x0b, 0x00], vec_of(vec![leb(0)])])])),
        section(
            10,
            vec_of(vec![
                body(vec![], i32_const(5)),
                body(vec![], vec![0x20, 0, 0x11, 0, 1]),
            ]),
        ),
        section(11, vec_of(vec![cat(vec![leb(2), leb(0), i32_const(4), vec![0x0b], leb(1), vec![9]])])),
    ]);
    let info = validate(&explicit).unwrap();
    let mut instance = RuntimeInstance::new(&info).unwrap();
    assert_eq!(instance.invoke_func(1, vec![Value::I32(1)], budget()), ok32(5));
    assert_eq!(instance.invoke_func(1, vec![Value::I32(0)], budget()), Err(InvokeError::Trap(Trap::UndefinedElement)));
    assert_eq!(instance.memory_byte(4), Some(9));
}
