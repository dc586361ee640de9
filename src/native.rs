use vstd::prelude::*;

use crate::codec::{decode_felts_as_str, decode_spec, felt_views};
use crate::felt::Felt;

verus! {

/// One invocation request: entry point, calldata and initial gas budget.
pub struct CallEntryPoint {
    pub entry_point_selector: Felt,
    pub calldata: Vec<Felt>,
    pub initial_gas: u64,
}

/// What the native executor reports for a call that ran.
pub struct ContractExecutionResult {
    pub return_values: Vec<Felt>,
    pub failure_flag: bool,
    pub remaining_gas: u128,
}

/// An event emitted during a call.
pub struct OrderedEvent {
    pub order: usize,
    pub keys: Vec<Felt>,
    pub data: Vec<Felt>,
}

/// A message to L1 sent during a call.
pub struct OrderedL2ToL1Message {
    pub order: usize,
    pub to_address: Felt,
    pub payload: Vec<Felt>,
}

/// The side effects that a syscall handler records during one call.
pub struct SyscallRecords {
    pub events: Vec<OrderedEvent>,
    pub l2_to_l1_messages: Vec<OrderedL2ToL1Message>,
    pub inner_calls: Vec<CallInfo>,
    pub storage_read_values: Vec<Felt>,
    pub accessed_storage_keys: Vec<Felt>,
}

/// Step-level resource usage; natively executed calls do not track it.
pub enum ExecutionResources {
    Untracked,
    Counted { n_steps: usize, n_memory_holes: usize },
}

/// The execution facts of one call.
pub struct CallExecution {
    pub retdata: Vec<Felt>,
    pub events: Vec<OrderedEvent>,
    pub l2_to_l1_messages: Vec<OrderedL2ToL1Message>,
    pub failed: bool,
    pub gas_consumed: u64,
}

/// The receipt of one call, owning the receipts of its inner calls.
pub struct CallInfo {
    pub call: CallEntryPoint,
    pub execution: CallExecution,
    pub resources: ExecutionResources,
    pub inner_calls: Vec<CallInfo>,
    pub storage_read_values: Vec<Felt>,
    pub accessed_storage_keys: Vec<Felt>,
}

/// Why an entry point did not produce a receipt.
pub enum EntryPointExecutionError {
    /// The contract signalled failure; `info` is its decoded panic message.
    ContractExecutionFailure { info: String },
    /// The native executor itself failed.
    ExecutorFault { source: String },
    /// The remaining gas does not fit in 64 bits.
    GasOverflow,
    /// A fixed resource tag did not parse to a field element.
    EncodingFault,
}

/// The executor that runs compiled contract code, calling back into the
/// syscall handler while the call runs.
pub trait NativeExecutor {
    fn invoke_contract_dynamic(
        &mut self,
        function_id: u64,
        calldata: &Vec<Felt>,
        gas: u128,
        syscall_handler: &mut SyscallRecords,
    ) -> Result<ContractExecutionResult, String>;
}

pub open spec fn gas_fits(remaining_gas: u128) -> bool {
    remaining_gas < 0x1_0000_0000_0000_0000
}

/// Builds the receipt of a call that ran: the consumed gas is the initial gas
/// less the remaining gas, and the handler's records move into the receipt.
pub fn create_callinfo(
    call: CallEntryPoint,
    run_result: ContractExecutionResult,
    syscall_handler: SyscallRecords,
) -> (r: Result<CallInfo, EntryPointExecutionError>)
    requires
        gas_fits(run_result.remaining_gas) ==> run_result.remaining_gas <= call.initial_gas,
    ensures
        !gas_fits(run_result.remaining_gas) <==> r is Err,
        r is Err ==> r matches Err(EntryPointExecutionError::GasOverflow),
        r matches Ok(ci) ==> {
            &&& ci.call == call
            &&& ci.execution.gas_consumed == call.initial_gas - run_result.remaining_gas
            &&& ci.execution.retdata@ == run_result.return_values@
            &&& ci.execution.failed == run_result.failure_flag
            &&& ci.execution.events@ == syscall_handler.events@
            &&& ci.execution.l2_to_l1_messages@ == syscall_handler.l2_to_l1_messages@
            &&& ci.resources is Untracked
            &&& ci.inner_calls@ == syscall_handler.inner_calls@
            &&& ci.storage_read_values@ == syscall_handler.storage_read_values@
            &&& ci.accessed_storage_keys@ == syscall_handler.accessed_storage_keys@
        },
{
    let g = run_result.remaining_gas;
    let low = (g & 0xffff_ffff_ffff_ffffu128) as u64;
    let high = (g >> 64u128) as u64;
    assert(high == 0 <==> g < 0x1_0000_0000_0000_0000) by (bit_vector)
        requires
            high == (g >> 64u128) as u64,
    ;
    assert(high == 0 ==> low == g) by (bit_vector)
        requires
            high == (g >> 64u128) as u64,
            low == (g & 0xffff_ffff_ffff_ffffu128) as u64,
    ;
    if high != 0 {
        return Err(EntryPointExecutionError::GasOverflow);
    }
    let gas_consumed = call.initial_gas - low;
    Ok(CallInfo {
        call,
        execution: CallExecution {
            retdata: run_result.return_values,
            events: syscall_handler.events,
            l2_to_l1_messages: syscall_handler.l2_to_l1_messages,
            failed: run_result.failure_flag,
            gas_consumed,
        },
        resources: ExecutionResources::Untracked,
        inner_calls: syscall_handler.inner_calls,
        storage_read_values: syscall_handler.storage_read_values,
        accessed_storage_keys: syscall_handler.accessed_storage_keys,
    })
}

/// The message of a contract-level failure: the decoded return values, or
/// "Unknown error" where there are none.
pub open spec fn failure_info(return_values: Seq<Felt>) -> Seq<char> {
    if return_values.len() == 0 {
        seq!['U', 'n', 'k', 'n', 'o', 'w', 'n', ' ', 'e', 'r', 'r', 'o', 'r']
    } else {
        decode_spec(felt_views(return_values))
    }
}

/// Turns what the executor returned into the call's receipt or error: a
/// contract failure carries its decoded message, an executor fault is passed on,
/// a run that reports more gas remaining than it was given is an executor
/// fault, and a run that succeeded gets its receipt.
pub fn finish_native_call(
    call: CallEntryPoint,
    execution_result: Result<ContractExecutionResult, String>,
    syscall_handler: SyscallRecords,
) -> (r: Result<CallInfo, EntryPointExecutionError>)
    ensures
        match execution_result {
            Err(e) => r matches Err(EntryPointExecutionError::ExecutorFault { source }) && source@
                == e@,
            Ok(res) => if res.failure_flag {
                r matches Err(EntryPointExecutionError::ContractExecutionFailure { info }) && info@
                    == failure_info(res.return_values@)
            } else if !gas_fits(res.remaining_gas) {
                r matches Err(EntryPointExecutionError::GasOverflow)
            } else if res.remaining_gas > call.initial_gas {
                r matches Err(EntryPointExecutionError::ExecutorFault { .. })
            } else {
                r matches Ok(ci) && ci.call == call && ci.execution.gas_consumed == call.initial_gas
                    - res.remaining_gas && ci.execution.retdata@ == res.return_values@
                    && !ci.execution.failed && ci.resources is Untracked
                    && ci.execution.events@ == syscall_handler.events@
                    && ci.execution.l2_to_l1_messages@ == syscall_handler.l2_to_l1_messages@
                    && ci.inner_calls@ == syscall_handler.inner_calls@
                    && ci.storage_read_values@ == syscall_handler.storage_read_values@
                    && ci.accessed_storage_keys@ == syscall_handler.accessed_storage_keys@
            },
        },
{
    match execution_result {
        Err(e) => Err(EntryPointExecutionError::ExecutorFault { source: e }),
        Ok(res) => {
            if res.failure_flag {
                let info = if res.return_values.len() != 0 {
                    decode_felts_as_str(res.return_values.as_slice())
                } else {
                    let s = String::from_str("Unknown error");
                    proof { reveal_strlit("Unknown error"); }
                    assert(s@ =~= failure_info(res.return_values@));
                    s
                };
                Err(EntryPointExecutionError::ContractExecutionFailure { info })
            } else if res.remaining_gas < 0x1_0000_0000_0000_0000 && res.remaining_gas
                > call.initial_gas as u128 {
                let source = String::from_str("remaining gas exceeds the initial gas");
                Err(EntryPointExecutionError::ExecutorFault { source })
            } else {
                create_callinfo(call, res, syscall_handler)
            }
        },
    }
}

/// Runs one call on the native executor, which records its side effects in
/// `syscall_handler`, and builds the call's receipt from the outcome as
/// `finish_native_call` does.
pub fn run_native_executor<E: NativeExecutor>(
    native_executor: &mut E,
    function_id: u64,
    call: CallEntryPoint,
    syscall_handler: SyscallRecords,
) -> (r: Result<CallInfo, EntryPointExecutionError>)
    ensures
        r matches Ok(ci) ==> ci.call == call && !ci.execution.failed && ci.execution.gas_consumed
            <= call.initial_gas && ci.resources is Untracked,
        !(r matches Err(EntryPointExecutionError::EncodingFault)),
{
    let mut handler = syscall_handler;
    let execution_result = native_executor.invoke_contract_dynamic(
        function_id,
        &call.calldata,
        call.initial_gas as u128,
        &mut handler,
    );
    finish_native_call(call, execution_result, handler)
}

} // verus!
