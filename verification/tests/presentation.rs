use koharu::geometry::{PhysicalRect, PhysicalSize};
use koharu::presentation::{
    adapter_order, adapter_priority, AcquireStep, DeviceType, GraphicsBackend, PresentOutcome,
    PresenterError, PresenterState, SurfaceTexture,
};

fn size(width: u32, height: u32) -> PhysicalSize {
    PhysicalSize { width, height }
}

#[test]
fn the_first_present_draws_everything() {
    let presenter = PresenterState::new(size(800, 600));
    assert!(presenter.needs_redraw(false));
    assert_eq!(presenter.skip_present(false), None);
    assert_eq!(presenter.viewport(), PhysicalRect::zero());
}

#[test]
fn a_clean_present_leaves_nothing_to_redraw() {
    let mut presenter = PresenterState::new(size(800, 600));
    assert_eq!(
        presenter.texture_acquired(SurfaceTexture::Success),
        Ok(AcquireStep::Render { suboptimal: false })
    );
    assert_eq!(
        presenter.presented(false, false, false),
        PresentOutcome {
            presented: true,
            needs_redraw: false
        }
    );
    assert_eq!(
        presenter.skip_present(false),
        Some(PresentOutcome {
            presented: false,
            needs_redraw: false
        })
    );
}

#[test]
fn suboptimal_and_animated_presents_ask_for_more() {
    let mut presenter = PresenterState::new(size(800, 600));
    assert_eq!(
        presenter.texture_acquired(SurfaceTexture::Suboptimal),
        Ok(AcquireStep::Render { suboptimal: true })
    );
    assert!(presenter.presented(false, true, false).needs_redraw);
    assert!(presenter.presented(true, false, false).needs_redraw);
    assert!(presenter.presented(false, false, true).needs_redraw);
    assert!(!presenter.presented(false, false, false).needs_redraw);
}

#[test]
fn swapchain_answers_decide_the_present() {
    let mut presenter = PresenterState::new(size(800, 600));
    let again = PresentOutcome {
        presented: false,
        needs_redraw: true,
    };
    assert_eq!(
        presenter.texture_acquired(SurfaceTexture::Timeout),
        Ok(AcquireStep::Skip(again))
    );
    assert_eq!(
        presenter.texture_acquired(SurfaceTexture::Occluded),
        Ok(AcquireStep::Skip(again))
    );
    assert_eq!(
        presenter.texture_acquired(SurfaceTexture::Lost),
        Ok(AcquireStep::Reconfigure(again))
    );
    assert_eq!(
        presenter.texture_acquired(SurfaceTexture::Outdated),
        Ok(AcquireStep::Reconfigure(again))
    );
    assert_eq!(
        presenter.texture_acquired(SurfaceTexture::Validation),
        Err(PresenterError::SurfaceValidation)
    );
}

#[test]
fn an_empty_surface_is_never_drawn() {
    let presenter = PresenterState::new(size(0, 600));
    assert_eq!(
        presenter.skip_present(false),
        Some(PresentOutcome {
            presented: false,
            needs_redraw: true
        })
    );
}

#[test]
fn viewports_are_clipped_and_damage_the_canvas() {
    let mut presenter = PresenterState::new(size(100, 100));
    presenter.presented(false, false, false);
    assert!(presenter.set_viewport(PhysicalRect {
        x: 50,
        y: 50,
        width: 100,
        height: 100
    }));
    assert_eq!(
        presenter.viewport(),
        PhysicalRect {
            x: 50,
            y: 50,
            width: 50,
            height: 50
        }
    );
    assert!(presenter.needs_redraw(false));
    presenter.presented(false, false, false);
    assert!(!presenter.set_viewport(PhysicalRect {
        x: 50,
        y: 50,
        width: 60,
        height: 60
    }));
    assert!(!presenter.needs_redraw(false));
}

#[test]
fn resizes_damage_the_surface_and_reclip_the_viewport() {
    let mut presenter = PresenterState::new(size(100, 100));
    presenter.set_viewport(PhysicalRect {
        x: 10,
        y: 10,
        width: 80,
        height: 80,
    });
    presenter.presented(false, false, false);
    assert!(!presenter.resize(size(100, 100)));
    assert!(presenter.resize(size(50, 50)));
    assert_eq!(presenter.surface_size(), size(50, 50));
    assert_eq!(
        presenter.viewport(),
        PhysicalRect {
            x: 10,
            y: 10,
            width: 40,
            height: 40
        }
    );
    assert!(presenter.needs_redraw(false));
}

#[test]
fn only_frames_of_the_surface_size_are_installed() {
    let mut presenter = PresenterState::new(size(100, 80));
    presenter.presented(false, false, false);
    assert!(presenter.accepts_ui_frame(100, 80));
    assert!(!presenter.accepts_ui_frame(80, 100));
    presenter.offer_ui_frame();
    assert!(presenter.needs_redraw(false));
}

#[test]
fn presenter_errors_have_messages() {
    assert_eq!(
        PresenterError::Canvas("boom".to_owned()).message(),
        "canvas failed: boom"
    );
    assert_eq!(
        PresenterError::NoAlphaMode.message(),
        "surface exposes no alpha mode"
    );
    assert_eq!(PresentOutcome::default(), PresentOutcome {
        presented: false,
        needs_redraw: false
    });
}

#[test]
fn discrete_modern_adapters_are_tried_first() {
    let found = [
        adapter_priority(DeviceType::IntegratedGpu, GraphicsBackend::Vulkan),
        adapter_priority(DeviceType::DiscreteGpu, GraphicsBackend::Gl),
        adapter_priority(DeviceType::Cpu, GraphicsBackend::Vulkan),
        adapter_priority(DeviceType::DiscreteGpu, GraphicsBackend::Dx12),
        adapter_priority(DeviceType::IntegratedGpu, GraphicsBackend::Metal),
    ];
    assert_eq!(found[3], (4, 1));
    assert_eq!(found[2], (0, 1));
    assert_eq!(adapter_order(&found.to_vec()), vec![3, 1, 0, 4, 2]);
    assert!(adapter_order(&Vec::new()).is_empty());
}
