use native_commit::codec::encode_str_as_felts;
use native_commit::felt::Felt;
use native_commit::native::{
    create_callinfo, finish_native_call, run_native_executor, CallEntryPoint, ContractExecutionResult,
    EntryPointExecutionError, ExecutionResources, NativeExecutor, OrderedEvent, SyscallRecords,
};
use native_commit::resource_bounds::{
    calculate_resource_bounds, AllResourceBounds, ResourceBounds, ValidResourceBounds,
};

fn call(initial_gas: u64) -> CallEntryPoint {
    CallEntryPoint { entry_point_selector: Felt::from_u128(5), calldata: vec![Felt::from_u128(1)], initial_gas }
}

fn records() -> SyscallRecords {
    SyscallRecords {
        events: vec![],
        l2_to_l1_messages: vec![],
        inner_calls: vec![],
        storage_read_values: vec![],
        accessed_storage_keys: vec![],
    }
}

fn result(remaining_gas: u128, failure_flag: bool, return_values: Vec<Felt>) -> ContractExecutionResult {
    ContractExecutionResult { return_values, failure_flag, remaining_gas }
}

struct Mock {
    outcome: Option<Result<ContractExecutionResult, String>>,
    seen_gas: u128,
}

impl NativeExecutor for Mock {
    fn invoke_contract_dynamic(
        &mut self,
        _function_id: u64,
        _calldata: &Vec<Felt>,
        gas: u128,
        syscall_handler: &mut SyscallRecords,
    ) -> Result<ContractExecutionResult, String> {
        self.seen_gas = gas;
        syscall_handler.events.push(OrderedEvent { order: 0, keys: vec![], data: vec![Felt::from_u128(9)] });
        syscall_handler.storage_read_values.push(Felt::from_u128(3));
        self.outcome.take().unwrap()
    }
}

#[test]
fn gas_consumed_is_initial_less_remaining() {
    let ci = create_callinfo(call(1000), result(400, false, vec![Felt::from_u128(7)]), records()).ok().unwrap();
    assert_eq!(ci.execution.gas_consumed, 600);
    assert_eq!(ci.execution.retdata.len(), 1);
    assert!(!ci.execution.failed);
    assert!(matches!(ci.resources, ExecutionResources::Untracked));
}

#[test]
fn remaining_gas_beyond_64_bits_overflows() {
    let r = create_callinfo(call(1000), result(1u128 << 64, false, vec![]), records());
    assert!(matches!(r, Err(EntryPointExecutionError::GasOverflow)));
    let r = create_callinfo(call(u64::MAX), result(u64::MAX as u128, false, vec![]), records());
    assert_eq!(r.ok().unwrap().execution.gas_consumed, 0);
}

#[test]
fn contract_failure_carries_decoded_message() {
    let r = finish_native_call(call(10), Ok(result(5, true, encode_str_as_felts("bad input"))), records());
    match r {
        Err(EntryPointExecutionError::ContractExecutionFailure { info }) => assert_eq!(info, "bad input"),
        _ => panic!("expected a contract failure"),
    }
}

#[test]
fn contract_failure_without_data_is_unknown_error() {
    let r = finish_native_call(call(10), Ok(result(5, true, vec![])), records());
    match r {
        Err(EntryPointExecutionError::ContractExecutionFailure { info }) => assert_eq!(info, "Unknown error"),
        _ => panic!("expected a contract failure"),
    }
}

#[test]
fn executor_fault_is_passed_on() {
    let r = finish_native_call(call(10), Err("crashed".to_string()), records());
    match r {
        Err(EntryPointExecutionError::ExecutorFault { source }) => assert_eq!(source, "crashed"),
        _ => panic!("expected an executor fault"),
    }
}

#[test]
fn run_moves_handler_records_into_receipt() {
    let mut m = Mock { outcome: Some(Ok(result(30, false, vec![Felt::from_u128(2)]))), seen_gas: 0 };
    let ci = run_native_executor(&mut m, 1, call(100), records()).ok().unwrap();
    assert_eq!(m.seen_gas, 100);
    assert_eq!(ci.execution.gas_consumed, 70);
    assert_eq!(ci.execution.events.len(), 1);
    assert_eq!(ci.storage_read_values.len(), 1);
    assert_eq!(ci.call.initial_gas, 100);
}

#[test]
fn run_reports_gas_overflow() {
    let mut m = Mock { outcome: Some(Ok(result(1u128 << 70, false, vec![]))), seen_gas: 0 };
    let r = run_native_executor(&mut m, 1, call(100), records());
    assert!(matches!(r, Err(EntryPointExecutionError::GasOverflow)));
}

fn tag(text: &str) -> [u8; 32] {
    let mut b = [0u8; 32];
    b[32 - text.len()..].copy_from_slice(text.as_bytes());
    b
}

#[test]
fn two_resource_bounds_give_two_entries() {
    let l1 = ResourceBounds { max_amount: 10, max_price_per_unit: 20 };
    let l2 = ResourceBounds { max_amount: 30, max_price_per_unit: 40 };
    let v = calculate_resource_bounds(&ValidResourceBounds::L1AndL2 { l1_gas: l1, l2_gas: l2 }).ok().unwrap();
    assert_eq!(v.len(), 2);
    assert_eq!(v[0].resource.bytes, tag("L1_GAS"));
    assert_eq!(v[1].resource.bytes, tag("L2_GAS"));
    assert_eq!((v[0].max_amount, v[0].max_price_per_unit), (10, 20));
    assert_eq!((v[1].max_amount, v[1].max_price_per_unit), (30, 40));
}

#[test]
fn three_resource_bounds_give_three_entries() {
    let b = AllResourceBounds {
        l1_gas: ResourceBounds { max_amount: 1, max_price_per_unit: 2 },
        l2_gas: ResourceBounds { max_amount: 3, max_price_per_unit: 4 },
        l1_data_gas: ResourceBounds { max_amount: 5, max_price_per_unit: 6 },
    };
    let v = calculate_resource_bounds(&ValidResourceBounds::AllResources(b)).ok().unwrap();
    assert_eq!(v.len(), 3);
    assert_eq!(v[0].resource.bytes, tag("L1_GAS"));
    assert_eq!(v[1].resource.bytes, tag("L2_GAS"));
    assert_eq!(v[2].resource.bytes, tag("L1_DATA"));
    assert_eq!((v[2].max_amount, v[2].max_price_per_unit), (5, 6));
}

#[test]
fn remaining_gas_above_budget_is_executor_fault() {
    let r = finish_native_call(call(10), Ok(result(11, false, vec![])), records());
    assert!(matches!(r, Err(EntryPointExecutionError::ExecutorFault { .. })));
    let mut m = Mock { outcome: Some(Ok(result(500, false, vec![]))), seen_gas: 0 };
    let r = run_native_executor(&mut m, 1, call(100), records());
    assert!(matches!(r, Err(EntryPointExecutionError::ExecutorFault { .. })));
}
