//! How the inpainting model is spread over the devices: which backend runs each
//! component, and how much accelerator memory the diffusion pipeline may use.
use vstd::prelude::*;
use crate::text::{chars_of, decimal, decimal_string, lower_seq, lowered, string_from};

verus! {

/// Percent of accelerator memory the pipeline may use.
pub const VRAM_BUDGET_PERCENT: usize = 75;

/// Bytes in a mebibyte.
pub const MIB: usize = 1048576;

/// `a * b`, or `usize::MAX` when that does not fit.
pub open spec fn saturating_mul(a: usize, b: usize) -> usize {
    if a * b > usize::MAX {
        usize::MAX
    } else {
        (a * b) as usize
    }
}

/// The memory budget in MiB for an accelerator with `memory_total` bytes.
pub open spec fn budget_mib(memory_total: usize) -> nat {
    (saturating_mul(memory_total, VRAM_BUDGET_PERCENT) / (100 * MIB) as usize) as nat
}

/// The budget in GiB with one truncated decimal, such as `12.0`; `None` on the
/// CPU, for unknown memory, or when the budget is below one MiB.
pub open spec fn spec_vram_budget(accelerated: bool, memory_total: usize) -> Option<Seq<char>> {
    let mib = budget_mib(memory_total);
    if !accelerated || memory_total == 0 || mib == 0 {
        None
    } else {
        Some(decimal(mib / 1024) + seq!['.'] + decimal((mib % 1024) * 10 / 1024))
    }
}

fn push_all(out: &mut Vec<char>, tail: &[char])
    ensures
        final(out)@ == old(out)@ + tail@,
{
    let ghost start = out@;
    let mut i: usize = 0;
    while i < tail.len()
        invariant
            i <= tail.len(),
            out@ == start + tail@.take(i as int),
        decreases tail.len() - i,
    {
        out.push(tail[i]);
        i = i + 1;
        proof {
            assert(tail@.take(i as int) == tail@.take(i - 1).push(tail@[i - 1]));
            assert(start + tail@.take(i as int) =~= (start + tail@.take(i - 1)).push(tail@[i - 1]));
        }
    }
    proof {
        assert(tail@.take(tail.len() as int) == tail@);
    }
}

/// The accelerator memory the diffusion pipeline may use, in GiB with one decimal.
pub fn vram_budget(accelerated: bool, memory_total: usize) -> (r: Option<String>)
    ensures
        match (r, spec_vram_budget(accelerated, memory_total)) {
            (Some(s), Some(t)) => s@ == t,
            (None, None) => true,
            _ => false,
        },
{
    if !accelerated || memory_total == 0 {
        return None;
    }
    let scaled = if memory_total > usize::MAX / VRAM_BUDGET_PERCENT {
        usize::MAX
    } else {
        memory_total * VRAM_BUDGET_PERCENT
    };
    let mib = scaled / (100 * MIB);
    if mib == 0 {
        return None;
    }
    let whole = mib / 1024;
    let tenth = (mib % 1024) * 10 / 1024;
    let mut out = decimal_string(whole as u64);
    out.push('.');
    let t = decimal_string(tenth as u64);
    push_all(&mut out, t.as_slice());
    Some(string_from(out.as_slice()))
}

/// Where each model component runs.
#[derive(Clone, Debug, PartialEq, Eq)]
pub struct BackendPlan {
    /// Backend of each module, as `te=..,diffusion=..,vae=..`, or `cpu`.
    pub backend: String,
    /// Where the parameters of each module live, when not all on the CPU.
    pub params_backend: Option<String>,
    /// The accelerator memory limit, as `<backend>=<GiB>`.
    pub max_vram: Option<String>,
    /// Whether diffusion layers stream from host memory to the accelerator.
    pub stream_layers: bool,
    /// Whether flash attention is used.
    pub flash_attention: bool,
}

/// `te=cpu,diffusion=<d>,vae=<v>`.
pub open spec fn module_list(diffusion: Seq<char>, vae: Seq<char>) -> Seq<char> {
    "te=cpu,diffusion="@ + diffusion + ",vae="@ + vae
}

/// The plan for a device named `name`: on an accelerator the text encoder stays
/// on the CPU and the other modules use the device; with a memory budget the
/// diffusion parameters stay on the CPU and stream to the device.
pub open spec fn spec_backend_plan(accelerated: bool, name: Seq<char>, memory_total: usize) -> (
    Seq<char>,
    Option<Seq<char>>,
    Option<Seq<char>>,
    bool,
) {
    let backend = lower_seq(name);
    let max_vram = match spec_vram_budget(accelerated, memory_total) {
        Some(b) => Some(backend + seq!['='] + b),
        None => None,
    };
    let stream = accelerated && max_vram is Some;
    (
        if accelerated {
            module_list(backend, backend)
        } else {
            "cpu"@
        },
        if accelerated {
            Some(module_list(if stream { "cpu"@ } else { backend }, backend))
        } else {
            None
        },
        max_vram,
        stream,
    )
}

/// The backend plan for the inpainting model on a device.
pub fn backend_plan(accelerated: bool, name: &str, memory_total: usize) -> (p: BackendPlan)
    ensures
        (p.backend@, match p.params_backend {
            Some(s) => Some(s@),
            None => None,
        }, match p.max_vram {
            Some(s) => Some(s@),
            None => None,
        }, p.stream_layers) == spec_backend_plan(accelerated, name@, memory_total),
        p.flash_attention == accelerated,
{
    let name_chars = chars_of(name);
    let backend = lowered(name_chars.as_slice());
    let budget = vram_budget(accelerated, memory_total);
    let max_vram = match budget {
        Some(b) => {
            let mut v = backend.clone();
            v.push('=');
            let bc = chars_of(b.as_str());
            push_all(&mut v, bc.as_slice());
            Some(string_from(v.as_slice()))
        },
        None => None,
    };
    let stream_layers = accelerated && max_vram.is_some();
    let te = chars_of("te=cpu,diffusion=");
    let vae = chars_of(",vae=");
    let module_backends = if accelerated {
        let mut m: Vec<char> = Vec::new();
        push_all(&mut m, te.as_slice());
        push_all(&mut m, backend.as_slice());
        push_all(&mut m, vae.as_slice());
        push_all(&mut m, backend.as_slice());
        string_from(m.as_slice())
    } else {
        "cpu".to_owned()
    };
    let params_backend = if accelerated {
        let mut m: Vec<char> = Vec::new();
        push_all(&mut m, te.as_slice());
        if stream_layers {
            let cpu = chars_of("cpu");
            push_all(&mut m, cpu.as_slice());
        } else {
            push_all(&mut m, backend.as_slice());
        }
        push_all(&mut m, vae.as_slice());
        push_all(&mut m, backend.as_slice());
        Some(string_from(m.as_slice()))
    } else {
        None
    };
    BackendPlan {
        backend: module_backends,
        params_backend,
        max_vram,
        stream_layers,
        flash_attention: accelerated,
    }
}

/// The pipeline's budget leaves at least a quarter of the accelerator memory to
/// everything else: the budget in bytes is at most three quarters of it.
pub proof fn lemma_budget_reserves_a_quarter(memory_total: usize)
    ensures
        budget_mib(memory_total) * MIB * 4 <= memory_total * 3,
{
    let scaled = saturating_mul(memory_total, VRAM_BUDGET_PERCENT);
    let d: int = 100 * MIB;
    let b: int = scaled as int / d;
    assert(scaled <= memory_total * 75);
    assert(b * d <= scaled) by (nonlinear_arith)
        requires
            d > 0,
            scaled >= 0,
            b == scaled as int / d,
    ;
    assert(budget_mib(memory_total) == b);
    assert(b * MIB * 4 <= memory_total * 3) by (nonlinear_arith)
        requires
            b * d <= memory_total * 75,
            d == 100 * MIB,
            MIB > 0,
    ;
}

} // verus!
