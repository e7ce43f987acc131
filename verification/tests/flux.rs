use koharu::flux::{backend_plan, vram_budget};

const GIB: usize = 1024 * 1024 * 1024;

#[test]
fn reserves_one_quarter_of_accelerator_memory_for_the_pipeline() {
    let plan = backend_plan(true, "CUDA0", 16 * GIB);
    assert_eq!(plan.backend, "te=cpu,diffusion=cuda0,vae=cuda0");
    assert_eq!(
        plan.params_backend.as_deref(),
        Some("te=cpu,diffusion=cpu,vae=cuda0")
    );
    assert_eq!(plan.max_vram.as_deref(), Some("cuda0=12.0"));
    assert!(plan.stream_layers);
}

#[test]
fn cpu_context_does_not_enable_accelerator_streaming() {
    let plan = backend_plan(false, "cpu", 0);
    assert_eq!(plan.backend, "cpu");
    assert!(plan.params_backend.is_none());
    assert!(plan.max_vram.is_none());
    assert!(!plan.stream_layers);
}

#[test]
fn budgets_keep_one_truncated_decimal() {
    assert_eq!(vram_budget(true, 16 * GIB).as_deref(), Some("12.0"));
    assert_eq!(vram_budget(true, 10 * GIB).as_deref(), Some("7.5"));
    assert_eq!(vram_budget(true, 0), None);
    assert_eq!(vram_budget(false, 16 * GIB), None);
    assert_eq!(vram_budget(true, 1024), None);
}

#[test]
fn accelerators_without_known_memory_do_not_stream() {
    let plan = backend_plan(true, "vulkan0", 0);
    assert_eq!(plan.backend, "te=cpu,diffusion=vulkan0,vae=vulkan0");
    assert_eq!(
        plan.params_backend.as_deref(),
        Some("te=cpu,diffusion=vulkan0,vae=vulkan0")
    );
    assert!(plan.max_vram.is_none());
    assert!(!plan.stream_layers);
    assert!(plan.flash_attention);
}
