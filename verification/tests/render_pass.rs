use std::sync::Arc;
use vulkano::format::{ClearValue, Format};
use vulkano::framebuffer::traits::{
    LayoutAttachmentDescription, LayoutPassDependencyDescription, LayoutPassDescription, LoadOp,
    RenderPass, RenderPassAttachmentsList, RenderPassClearValues, RenderPassCompatible,
    RenderPassDesc, StoreOp, Subpass, UnsafeRenderPass,
};
use vulkano::image::{Image, ImageLayout, ImageView};

struct TestPass {
    inner: UnsafeRenderPass,
}

impl Clone for TestPass {
    fn clone(&self) -> TestPass {
        TestPass {
            inner: UnsafeRenderPass {
                handle: self.inner.handle,
                attachments: self.attachments(),
                passes: self.passes(),
                dependencies: self.dependencies(),
            },
        }
    }
}

// A render pass that does not describe itself in any other way.
struct OpaquePass {
    inner: UnsafeRenderPass,
}

impl RenderPass for OpaquePass {
    fn render_pass(&self) -> &UnsafeRenderPass {
        &self.inner
    }
}

impl RenderPass for TestPass {
    fn render_pass(&self) -> &UnsafeRenderPass {
        &self.inner
    }
}

impl RenderPassDesc for TestPass {
    fn attachments(&self) -> Vec<LayoutAttachmentDescription> {
        self.inner.attachments.clone()
    }

    fn passes(&self) -> Vec<LayoutPassDescription> {
        self.inner.passes.clone()
    }

    fn dependencies(&self) -> Vec<LayoutPassDependencyDescription> {
        self.inner.dependencies.clone()
    }
}

impl RenderPassClearValues<[u32; 4]> for TestPass {
    fn convert_clear_values(&self, values: [u32; 4]) -> Vec<ClearValue> {
        self.inner
            .attachments
            .iter()
            .map(|a| {
                if a.load == LoadOp::Clear {
                    ClearValue::Uint(values)
                } else {
                    ClearValue::NotCleared
                }
            })
            .collect()
    }
}

impl RenderPassAttachmentsList<u64> for TestPass {
    fn convert_attachments_list(
        &self,
        list: u64,
    ) -> Vec<(Arc<ImageView>, Arc<Image>, ImageLayout, ImageLayout)> {
        self.inner
            .attachments
            .iter()
            .map(|a| {
                (
                    Arc::new(ImageView { handle: list }),
                    Arc::new(Image { handle: list + 1 }),
                    a.initial_layout,
                    a.final_layout,
                )
            })
            .collect()
    }
}

fn attachment(code: u32, samples: u32) -> LayoutAttachmentDescription {
    LayoutAttachmentDescription {
        format: Format { code },
        samples,
        load: LoadOp::Clear,
        store: StoreOp::Store,
        initial_layout: ImageLayout::Undefined,
        final_layout: ImageLayout::PresentSrc,
    }
}

fn pass(color: Vec<usize>, depth: Option<usize>) -> LayoutPassDescription {
    LayoutPassDescription {
        color_attachments: color
            .into_iter()
            .map(|i| (i, ImageLayout::ColorAttachmentOptimal))
            .collect(),
        depth_stencil: depth.map(|i| (i, ImageLayout::DepthStencilAttachmentOptimal)),
        input_attachments: vec![],
        resolve_attachments: vec![],
        preserve_attachments: vec![],
    }
}

fn render_pass(
    attachments: Vec<LayoutAttachmentDescription>,
    passes: Vec<LayoutPassDescription>,
) -> Arc<TestPass> {
    Arc::new(TestPass {
        inner: UnsafeRenderPass { handle: 42, attachments, passes, dependencies: vec![] },
    })
}

fn two_subpasses() -> Arc<TestPass> {
    render_pass(
        vec![attachment(37, 4), attachment(37, 4), attachment(126, 4)],
        vec![pass(vec![0, 1], Some(2)), pass(vec![], None), pass(vec![], Some(2))],
    )
}

#[test]
fn number_of_subpasses() {
    assert_eq!(two_subpasses().num_subpasses(), 3);
    assert_eq!(render_pass(vec![], vec![]).num_subpasses(), 0);
}

#[test]
fn number_of_color_attachments() {
    let rp = two_subpasses();
    assert_eq!(rp.num_color_attachments(0), Some(2));
    assert_eq!(rp.num_color_attachments(1), Some(0));
    assert_eq!(rp.num_color_attachments(2), Some(0));
    assert_eq!(rp.num_color_attachments(3), None);
    assert_eq!(rp.num_color_attachments(u32::MAX), None);
}

#[test]
fn subpass_exists() {
    let rp = two_subpasses();
    for id in 0..3 {
        let subpass = Subpass::from(&rp, id).unwrap();
        assert_eq!(subpass.index(), id);
        assert!(subpass.index() < subpass.render_pass().num_subpasses());
        assert!(Arc::ptr_eq(subpass.render_pass(), &rp));
        assert_eq!(Some(subpass.num_color_attachments()), rp.num_color_attachments(id));
    }
}

#[test]
fn subpass_out_of_range() {
    let rp = two_subpasses();
    assert!(Subpass::from(&rp, 3).is_none());
    assert!(Subpass::from(&rp, u32::MAX).is_none());
    assert!(Subpass::from(&render_pass(vec![], vec![]), 0).is_none());
}

#[test]
fn subpass_is_copied() {
    let rp = two_subpasses();
    let subpass = Subpass::from(&rp, 1).unwrap();
    let copy = subpass;
    let clone = subpass.clone();
    assert_eq!(copy.index(), 1);
    assert_eq!(clone.index(), 1);
    assert!(Arc::ptr_eq(clone.render_pass(), subpass.render_pass()));
}

#[test]
fn subpass_outputs() {
    let rp = two_subpasses();
    assert!(Subpass::from(&rp, 0).unwrap().has_color_or_depth_stencil_attachment());
    assert!(!Subpass::from(&rp, 1).unwrap().has_color_or_depth_stencil_attachment());
    assert!(Subpass::from(&rp, 2).unwrap().has_color_or_depth_stencil_attachment());
}

#[test]
fn subpass_samples() {
    let rp = two_subpasses();
    assert_eq!(Subpass::from(&rp, 0).unwrap().num_samples(), Some(4));
    assert_eq!(Subpass::from(&rp, 1).unwrap().num_samples(), None);
    assert_eq!(Subpass::from(&rp, 2).unwrap().num_samples(), Some(4));
}

#[test]
fn subpass_samples_skip_missing_attachments() {
    let rp = render_pass(
        vec![attachment(37, 2), attachment(126, 8)],
        vec![pass(vec![9, 1], None), pass(vec![9], Some(1)), pass(vec![9], Some(2))],
    );
    assert_eq!(Subpass::from(&rp, 0).unwrap().num_samples(), Some(8));
    assert_eq!(Subpass::from(&rp, 1).unwrap().num_samples(), Some(8));
    assert_eq!(Subpass::from(&rp, 2).unwrap().num_samples(), None);
}

#[test]
fn inner_render_pass() {
    assert_eq!(two_subpasses().render_pass().handle, 42);
}

#[test]
fn attachment_compatibility() {
    let a = attachment(37, 4);
    let mut b = a.clone();
    b.load = LoadOp::DontCare;
    b.store = StoreOp::DontCare;
    b.initial_layout = ImageLayout::General;
    b.final_layout = ImageLayout::General;
    assert!(a.is_compatible_with(&b));
    assert!(!a.is_compatible_with(&attachment(38, 4)));
    assert!(!a.is_compatible_with(&attachment(37, 1)));
}

#[test]
fn clones_are_equal() {
    let a = attachment(37, 4).clone();
    assert_eq!((a.format, a.samples, a.load, a.store), (
        Format { code: 37 },
        4,
        LoadOp::Clear,
        StoreOp::Store
    ));
    assert_eq!(a.initial_layout, ImageLayout::Undefined);
    assert_eq!(a.final_layout, ImageLayout::PresentSrc);
    let mut p = pass(vec![0, 1], Some(2));
    p.input_attachments = vec![(3, ImageLayout::General)];
    p.resolve_attachments = vec![(4, ImageLayout::General), (5, ImageLayout::General)];
    p.preserve_attachments = vec![6, 7];
    let q = p.clone();
    assert_eq!(p.color_attachments, q.color_attachments);
    assert_eq!(p.depth_stencil, q.depth_stencil);
    assert_eq!(p.input_attachments, q.input_attachments);
    assert_eq!(p.resolve_attachments, q.resolve_attachments);
    assert_eq!(p.preserve_attachments, q.preserve_attachments);
    let d = LayoutPassDependencyDescription {
        source_subpass: 1,
        destination_subpass: 2,
        by_region: true,
    };
    assert_eq!(d.clone(), d);
}

#[test]
fn compatible_with_itself() {
    let rp = two_subpasses();
    assert!(rp.is_compatible_with(&rp));
    assert!(rp.is_compatible_with(&two_subpasses()));
}

#[test]
fn compatible_with_another_type() {
    let rp = two_subpasses();
    let opaque = Arc::new(OpaquePass { inner: (*two_subpasses()).clone().inner });
    assert!(rp.is_compatible_with(&opaque));
    assert!(opaque.is_compatible_with(&rp));
    assert!(opaque.is_compatible_with(&opaque));
    let empty = Arc::new(OpaquePass { inner: (*render_pass(vec![], vec![])).clone().inner });
    assert!(!empty.is_compatible_with(&rp));
}

#[test]
fn compatibility_ignores_layouts_and_operations() {
    let rp = two_subpasses();
    let mut other = (*two_subpasses()).clone();
    for a in other.inner.attachments.iter_mut() {
        a.load = LoadOp::Load;
        a.store = StoreOp::DontCare;
        a.initial_layout = ImageLayout::General;
    }
    for p in other.inner.passes.iter_mut() {
        for r in p.color_attachments.iter_mut() {
            r.1 = ImageLayout::General;
        }
    }
    let other = Arc::new(other);
    assert!(rp.is_compatible_with(&other));
    assert!(other.is_compatible_with(&rp));
}

#[test]
fn incompatible_attachments() {
    let rp = two_subpasses();
    let mut other = (*two_subpasses()).clone();
    other.inner.attachments[1].samples = 1;
    let other = Arc::new(other);
    assert!(!rp.is_compatible_with(&other));
    assert!(!other.is_compatible_with(&rp));
    let mut longer = (*two_subpasses()).clone();
    longer.inner.attachments.push(attachment(37, 4));
    assert!(!rp.is_compatible_with(&Arc::new(longer)));
}

#[test]
fn incompatible_passes() {
    let rp = two_subpasses();
    let mut fewer = (*rp).clone();
    fewer.inner.passes.pop();
    assert!(!rp.is_compatible_with(&Arc::new(fewer)));
    let mut color = (*rp).clone();
    color.inner.passes[0].color_attachments[1].0 = 2;
    assert!(!rp.is_compatible_with(&Arc::new(color)));
    let mut no_depth = (*rp).clone();
    no_depth.inner.passes[2].depth_stencil = None;
    assert!(!rp.is_compatible_with(&Arc::new(no_depth)));
    let mut input = (*rp).clone();
    input.inner.passes[1].input_attachments.push((0, ImageLayout::General));
    assert!(!rp.is_compatible_with(&Arc::new(input)));
    let mut preserve = (*rp).clone();
    preserve.inner.passes[1].preserve_attachments.push(0);
    assert!(!rp.is_compatible_with(&Arc::new(preserve)));
    let mut dependency = (*rp).clone();
    dependency.inner.dependencies.push(LayoutPassDependencyDescription {
        source_subpass: 0,
        destination_subpass: 1,
        by_region: false,
    });
    assert!(!rp.is_compatible_with(&Arc::new(dependency)));
}

#[test]
fn references_compare_by_attachment() {
    let rp = two_subpasses();
    let mut other = (*rp).clone();
    other.inner.passes[0].color_attachments.swap(0, 1);
    assert!(rp.is_compatible_with(&Arc::new(other)));
    let mut unused = (*rp).clone();
    unused.inner.passes[1].color_attachments.push((99, ImageLayout::General));
    assert!(rp.is_compatible_with(&Arc::new(unused)));
}

#[test]
fn resolve_references_of_a_single_subpass() {
    let one = render_pass(vec![attachment(37, 4), attachment(37, 1)], vec![pass(vec![0], None)]);
    let mut resolved = (*one).clone();
    resolved.inner.passes[0].resolve_attachments.push((1, ImageLayout::General));
    assert!(one.is_compatible_with(&Arc::new(resolved)));
    let two = render_pass(
        vec![attachment(37, 4), attachment(37, 1)],
        vec![pass(vec![0], None), pass(vec![0], None)],
    );
    let mut resolved = (*two).clone();
    resolved.inner.passes[0].resolve_attachments.push((1, ImageLayout::General));
    assert!(!two.is_compatible_with(&Arc::new(resolved)));
}

#[test]
fn operation_values() {
    assert_eq!(StoreOp::Store.to_vk(), 0);
    assert_eq!(StoreOp::DontCare.to_vk(), 1);
    assert_eq!(LoadOp::Load.to_vk(), 0);
    assert_eq!(LoadOp::Clear.to_vk(), 1);
    assert_eq!(LoadOp::DontCare.to_vk(), 2);
    assert_eq!(StoreOp::DontCare as u32, StoreOp::DontCare.to_vk());
    assert_eq!(LoadOp::DontCare as u32, LoadOp::DontCare.to_vk());
}

#[test]
fn clear_values_of_attachments() {
    let mut rp = (*two_subpasses()).clone();
    rp.inner.attachments[1].load = LoadOp::Load;
    let values = rp.convert_clear_values([1, 2, 3, 4]);
    assert_eq!(values.len(), 3);
    assert!(matches!(values[0], ClearValue::Uint([1, 2, 3, 4])));
    assert!(matches!(values[1], ClearValue::NotCleared));
}

#[test]
fn attachments_list_is_decoded() {
    let list = two_subpasses().convert_attachments_list(10);
    assert_eq!(list.len(), 3);
    assert_eq!(list[0].0.handle, 10);
    assert_eq!(list[0].1.handle, 11);
    assert_eq!(list[0].3, ImageLayout::PresentSrc);
}
