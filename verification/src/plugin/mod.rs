//! Plugin hook types.
//!
//! Plugins hook into terminal I/O and may transform the data or suppress
//! the event. The sandboxed WebAssembly host that runs them lives with the
//! application; the byte-level protocol between host and plugin (strings in
//! plugin memory, the hook data exchange, combining the hooks' results) is
//! here.
use vstd::prelude::*;
use crate::strings::push_str;

verus! {

#[verifier::external_type_specification]
#[verifier::external_body]
pub struct ExAnyhowError(anyhow::Error);

/// Plugin context passed to hooks
#[derive(Debug, Clone)]
pub struct PluginContext {
    /// Current working directory (if available)
    pub cwd: Option<String>,
    /// Terminal dimensions
    pub cols: u16,
    pub rows: u16,
}

/// Result from a plugin hook
#[derive(Debug, Clone)]
pub struct HookResult {
    /// Modified data (if the plugin wants to transform it)
    pub data: Option<Vec<u8>>,
    /// Whether to suppress the original event
    pub suppress: bool,
}

impl Default for HookResult {
    fn default() -> (r: Self)
        ensures
            r.data is None,
            !r.suppress,
    {
        HookResult { data: None, suppress: false }
    }
}

/// Trait defining plugin hooks
///
/// Plugins implement this trait to intercept and optionally modify
/// terminal I/O. All hooks are optional - return `None` to pass through.
/// Nothing is stated of a plugin's own hooks; the provided ones pass the
/// data through unchanged and suppress nothing.
pub trait Plugin: Send + Sync {
    /// Unique plugin identifier
    fn id(&self) -> &str;

    /// Plugin name for display
    fn name(&self) -> &str;

    /// Called when data is sent to the terminal (user input)
    fn on_input(&self, data: &[u8], ctx: &PluginContext) -> (r: Result<HookResult, anyhow::Error>)
        default_ensures
            r matches Ok(h) && h.data is None && !h.suppress,
    {
        Ok(HookResult::default())
    }

    /// Called when data is received from the terminal (output)
    fn on_output(&self, data: &[u8], ctx: &PluginContext) -> (r: Result<HookResult, anyhow::Error>)
        default_ensures
            r matches Ok(h) && h.data is None && !h.suppress,
    {
        Ok(HookResult::default())
    }
}

/// Plugin metadata loaded from WASM module
#[derive(Debug, Clone)]
pub struct PluginMetadata {
    pub id: String,
    pub name: String,
    pub version: String,
    pub author: Option<String>,
    pub description: Option<String>,
}

/// The bytes of the NUL-terminated string that starts at `offset` of a
/// plugin's memory: up to the first NUL byte, or to the end of memory.
pub open spec fn c_string(memory: Seq<u8>, offset: int) -> Seq<u8>
    decreases memory.len() - offset,
{
    if offset < 0 || offset >= memory.len() || memory[offset] == 0 {
        Seq::empty()
    } else {
        seq![memory[offset]] + c_string(memory, offset + 1)
    }
}

/// Read the NUL-terminated string at `offset` of a plugin's memory.
pub fn c_string_at(memory: &[u8], offset: usize) -> (s: Vec<u8>)
    ensures
        s@ == c_string(memory@, offset as int),
{
    let mut bytes: Vec<u8> = Vec::new();
    let mut i = offset;
    while i < memory.len()
        invariant
            offset <= i,
            c_string(memory@, offset as int) == bytes@ + c_string(memory@, i as int),
        ensures
            c_string(memory@, offset as int) == bytes@,
        decreases memory.len() - i,
    {
        let byte = memory[i];
        if byte == 0 {
            proof {
                assert(bytes@ + Seq::<u8>::empty() =~= bytes@);
            }
            break;
        }
        proof {
            assert(bytes@ + c_string(memory@, i as int) =~= bytes@.push(byte) + c_string(
                memory@,
                i + 1,
            ));
        }
        bytes.push(byte);
        i = i + 1;
    }
    bytes
}

/// Pages of 64 KiB to add so that a memory of `memory_size` bytes holds
/// `data_len` bytes with 1 KiB to spare; none when it already does.
pub open spec fn pages_needed(memory_size: nat, data_len: nat) -> Option<nat> {
    let required = data_len + 1024;
    if memory_size < required {
        Some(((required - memory_size) as nat) / 65536 + 1)
    } else {
        None
    }
}

/// Pages to grow a plugin's memory by before handing it `data_len` bytes.
pub fn pages_to_grow(memory_size: usize, data_len: usize) -> (p: Option<u64>)
    requires
        data_len + 1024 <= usize::MAX,
    ensures
        match pages_needed(memory_size as nat, data_len as nat) {
            Some(n) => p == Some(n as u64),
            None => p is None,
        },
{
    let required = data_len + 1024;
    if memory_size < required {
        let pages = (required - memory_size) / 65536 + 1;
        Some(pages as u64)
    } else {
        None
    }
}

/// What a hook returned: the first `result_len` bytes of memory, when that
/// length is positive and within memory.
pub open spec fn hook_output_bytes(memory: Seq<u8>, result_len: i32) -> Option<Seq<u8>> {
    if 0 < result_len && result_len <= memory.len() {
        Some(memory.take(result_len as int))
    } else {
        None
    }
}

/// A copy of some bytes.
fn copy_bytes(data: &[u8]) -> (v: Vec<u8>)
    ensures
        v@ == data@,
{
    let mut v: Vec<u8> = Vec::new();
    let mut i: usize = 0;
    while i < data.len()
        invariant
            i <= data@.len(),
            v@ == data@.take(i as int),
        decreases data.len() - i,
    {
        v.push(data[i]);
        proof {
            assert(data@.take(i as int + 1) =~= data@.take(i as int).push(data@[i as int]));
        }
        i = i + 1;
    }
    proof {
        assert(data@.take(data@.len() as int) =~= data@);
    }
    v
}

/// The hook result read back from a plugin's memory after a hook call
/// returned `result_len`.
pub fn hook_output(memory: &[u8], result_len: i32) -> (r: HookResult)
    ensures
        !r.suppress,
        match hook_output_bytes(memory@, result_len) {
            Some(d) => r.data matches Some(v) && v@ == d,
            None => r.data is None,
        },
{
    let mut result = HookResult::default();
    if result_len > 0 {
        let len = result_len as usize;
        if len <= memory.len() {
            let mut v: Vec<u8> = Vec::new();
            let mut i: usize = 0;
            while i < len
                invariant
                    len <= memory@.len(),
                    i <= len,
                    v@ == memory@.take(i as int),
                decreases len - i,
            {
                v.push(memory[i]);
                proof {
                    assert(memory@.take(i as int + 1) =~= memory@.take(i as int).push(memory@[i as int]));
                }
                i = i + 1;
            }
            result.data = Some(v);
        }
    }
    result
}

/// Folds one plugin's hook result into the combined result: data a plugin
/// returns becomes the reported data, and any plugin can suppress the event.
pub fn merge_hook_result(result: &mut HookResult, hook: &HookResult)
    ensures
        match hook.data {
            Some(d) => final(result).data matches Some(v) && v@ == d@,
            None => final(result).data == old(result).data,
        },
        final(result).suppress == (old(result).suppress || hook.suppress),
{
    match &hook.data {
        Some(modified) => {
            result.data = Some(copy_bytes(modified.as_slice()));
        },
        None => {},
    }
    if hook.suppress {
        result.suppress = true;
    }
}

/// As [`merge_hook_result`], and data a plugin returns is also what the next
/// plugin in the chain is given.
pub fn chain_hook_result(result: &mut HookResult, current: &mut Vec<u8>, hook: &HookResult)
    ensures
        match hook.data {
            Some(d) => final(result).data matches Some(v) && v@ == d@ && final(current)@ == d@,
            None => final(result).data == old(result).data && final(current)@ == old(current)@,
        },
        final(result).suppress == (old(result).suppress || hook.suppress),
{
    merge_hook_result(result, hook);
    match &hook.data {
        Some(modified) => {
            *current = copy_bytes(modified.as_slice());
        },
        None => {},
    }
}

/// Plugin metadata from what the plugin exports, with defaults for what it
/// does not: the id `plugin-` followed by `fallback_suffix`, the name
/// "Unknown Plugin" and the version "0.1.0".
pub fn metadata_with_defaults(
    id: Option<String>,
    name: Option<String>,
    version: Option<String>,
    author: Option<String>,
    description: Option<String>,
    fallback_suffix: &str,
) -> (m: PluginMetadata)
    ensures
        match id {
            Some(s) => m.id == s,
            None => m.id@ == "plugin-"@ + fallback_suffix@,
        },
        match name {
            Some(s) => m.name == s,
            None => m.name@ == "Unknown Plugin"@,
        },
        match version {
            Some(s) => m.version == s,
            None => m.version@ == "0.1.0"@,
        },
        m.author == author,
        m.description == description,
{
    let id = match id {
        Some(s) => s,
        None => {
            let mut s = String::new();
            push_str(&mut s, "plugin-");
            push_str(&mut s, fallback_suffix);
            s
        },
    };
    let name = match name {
        Some(s) => s,
        None => "Unknown Plugin".to_owned(),
    };
    let version = match version {
        Some(s) => s,
        None => "0.1.0".to_owned(),
    };
    PluginMetadata { id, name, version, author, description }
}

} // verus!
