//! Descriptions of render passes.

pub use crate::framebuffer::compatibility::RenderPassCompatible;

use crate::format::{ClearValue, Format};
use crate::image::{Image, ImageLayout, ImageView};
use std::sync::Arc;
use vstd::prelude::*;

verus! {

/// A render pass object of the device, and what it was created from.
#[derive(Debug)]
pub struct UnsafeRenderPass {
    /// The `VkRenderPass` handle.
    pub handle: u64,
    /// The attachments.
    pub attachments: Vec<LayoutAttachmentDescription>,
    /// The passes.
    pub passes: Vec<LayoutPassDescription>,
    /// The dependencies between passes.
    pub dependencies: Vec<LayoutPassDependencyDescription>,
}

/// What a render pass is made of.
pub struct RenderPassLayout {
    /// The attachments.
    pub attachments: Seq<LayoutAttachmentDescription>,
    /// The passes.
    pub passes: Seq<LayoutPass>,
    /// The dependencies between passes.
    pub dependencies: Seq<LayoutPassDependencyDescription>,
}

impl View for UnsafeRenderPass {
    type V = RenderPassLayout;

    open spec fn view(&self) -> RenderPassLayout {
        RenderPassLayout {
            attachments: self.attachments@,
            passes: views_of(self.passes@),
            dependencies: self.dependencies@,
        }
    }
}

/// Trait for objects that describe a render pass.
///
/// `render_pass` has to return the same `UnsafeRenderPass` every time. A verified implementation says
/// with `inner` which one.
pub trait RenderPass: 'static + Send + Sync {
    /// The underlying `UnsafeRenderPass`.
    closed spec fn inner(&self) -> UnsafeRenderPass {
        arbitrary()
    }

    /// Returns the underlying `UnsafeRenderPass`.
    fn render_pass(&self) -> (r: &UnsafeRenderPass)
        ensures
            *r == self.inner(),
    ;
}

/// A count as a 32-bit number, of which the bits above are dropped.
pub open spec fn low_32(n: nat) -> u32 {
    (n % 0x1_0000_0000) as u32
}

/// The number of color attachments of a pass, if there is a pass of that index.
pub open spec fn color_count(passes: Seq<LayoutPass>, subpass: u32) -> Option<u32> {
    if subpass < passes.len() {
        Some(low_32(passes[subpass as int].color_attachments.len()))
    } else {
        None
    }
}

/// Returns a length as a 32-bit number.
fn count(n: usize) -> (r: u32)
    ensures
        r == low_32(n as nat),
        n <= u32::MAX ==> r == n,
{
    let wide: u64 = n as u64;
    assert(wide as u32 == wide % 0x1_0000_0000) by (bit_vector);
    wide as u32
}

/// Trait for objects that describe what a render pass is made of.
///
/// The lists have to be the same every time. A verified implementation says with `attachment_seq`,
/// `pass_seq` and `dependency_seq` what they hold.
pub trait RenderPassDesc {
    /// The attachments of this render pass.
    closed spec fn attachment_seq(&self) -> Seq<LayoutAttachmentDescription> {
        arbitrary()
    }

    /// The passes of this render pass.
    closed spec fn pass_seq(&self) -> Seq<LayoutPass> {
        arbitrary()
    }

    /// The dependencies between the passes of this render pass.
    closed spec fn dependency_seq(&self) -> Seq<LayoutPassDependencyDescription> {
        arbitrary()
    }

    /// Returns the list of attachments of this render pass.
    fn attachments(&self) -> (r: Vec<LayoutAttachmentDescription>)
        ensures
            r@ == self.attachment_seq(),
    ;

    /// Returns the list of passes of this render pass.
    fn passes(&self) -> (r: Vec<LayoutPassDescription>)
        ensures
            views_of(r@) == self.pass_seq(),
    ;

    /// Returns the list of inter-pass dependencies of this render pass.
    fn dependencies(&self) -> (r: Vec<LayoutPassDependencyDescription>)
        ensures
            r@ == self.dependency_seq(),
    ;

    /// Returns the number of subpasses within the render pass.
    fn num_subpasses(&self) -> (r: u32)
        ensures
            r == low_32(self.pass_seq().len()),
            self.pass_seq().len() <= u32::MAX ==> r == self.pass_seq().len(),
    {
        let passes: Vec<LayoutPassDescription> = self.passes();
        assert(views_of(passes@).len() == passes@.len());
        count(passes.len())
    }

    /// Returns the number of color attachments in a subpass. Returns `None` if out of range.
    fn num_color_attachments(&self, subpass: u32) -> (r: Option<u32>)
        ensures
            r == color_count(self.pass_seq(), subpass),
            r is Some <==> subpass < self.pass_seq().len(),
            r matches Some(n) ==> self.pass_seq()[subpass as int].color_attachments.len()
                <= u32::MAX ==> n == self.pass_seq()[subpass as int].color_attachments.len(),
    {
        let passes: Vec<LayoutPassDescription> = self.passes();
        assert(views_of(passes@).len() == passes@.len());
        let i: usize = subpass as usize;
        if i < passes.len() {
            assert(self.pass_seq()[i as int] == passes@[i as int]@);
            Some(count(passes[i].color_attachments.len()))
        } else {
            None
        }
    }
}

/// Extension trait for `RenderPass`. Defines which types are allowed as an attachments list.
///
/// It's the job of the implementation to check whether the attachments list is correct.
pub trait RenderPassAttachmentsList<A>: RenderPass {
    /// Decodes a `A` into a list of attachments: for each the view, the image, and the layouts
    /// that the image has before and after the render pass.
    fn convert_attachments_list(&self, list: A) -> Vec<
        (Arc<ImageView>, Arc<Image>, ImageLayout, ImageLayout),
    >;
}

/// Extension trait for `RenderPass`. Defines which types are allowed as a list of clear values.
///
/// The format of a clear value must match the format of the attachment; that is not checked.
pub trait RenderPassClearValues<C>: RenderPass {
    /// Decodes a `C` into a list of clear values where each element corresponds to an attachment.
    /// The size of the returned list is the number of attachments.
    ///
    /// Attachments that are not loaded with `LoadOp::Clear` have an entry equal to
    /// `ClearValue::NotCleared`.
    fn convert_clear_values(&self, values: C) -> (r: Vec<ClearValue>)
        ensures
            r@.len() == self.inner().attachments@.len(),
            forall|i: int|
                0 <= i < r@.len() && self.inner().attachments@[i].load != LoadOp::Clear ==> (
                #[trigger] r@[i]) == ClearValue::NotCleared,
    ;
}

/// Describes an attachment that will be used in a render pass.
#[derive(Debug)]
pub struct LayoutAttachmentDescription {
    /// Format of the image that is going to be binded.
    pub format: Format,
    /// Number of samples of the image that is going to be binded.
    pub samples: u32,
    /// What the implementation should do with that attachment at the start of the renderpass.
    pub load: LoadOp,
    /// What the implementation should do with that attachment at the end of the renderpass.
    pub store: StoreOp,
    /// Layout that the image is going to be in at the start of the renderpass.
    ///
    /// The library will automatically switch to the correct layout if necessary, but it is more
    /// optimal to set this to the correct value.
    pub initial_layout: ImageLayout,
    /// Layout that the image will be transitionned to at the end of the renderpass.
    pub final_layout: ImageLayout,
}

impl Clone for LayoutAttachmentDescription {
    fn clone(&self) -> (r: Self)
        ensures
            r == *self,
    {
        LayoutAttachmentDescription {
            format: self.format,
            samples: self.samples,
            load: self.load,
            store: self.store,
            initial_layout: self.initial_layout,
            final_layout: self.final_layout,
        }
    }
}

impl LayoutAttachmentDescription {
    /// Whether two attachments have the same format and the same number of samples.
    pub open spec fn compatible(self, other: LayoutAttachmentDescription) -> bool {
        self.format == other.format && self.samples == other.samples
    }

    /// Returns true if this attachment is compatible with another attachment, as defined in the
    /// `Render Pass Compatibility` section of the Vulkan specs.
    pub fn is_compatible_with(&self, other: &LayoutAttachmentDescription) -> (r: bool)
        ensures
            r == self.compatible(*other),
            r <==> self.format.code == other.format.code && self.samples == other.samples,
    {
        self.format == other.format && self.samples == other.samples
    }
}

/// Describes one of the passes of a render pass.
///
/// # Restrictions
///
/// - The number of color attachments must be less than the limit of the physical device.
/// - All the attachments in `color_attachments` and `depth_stencil` must have the same
///   samples count.
/// - If any attachment is used as both an input attachment and a color or
///   depth/stencil attachment, then each use must use the same layout.
/// - Elements of `preserve_attachments` must not be used in any of the other members.
/// - If `resolve_attachments` is not empty, then all the resolve attachments must be attachments
///   with 1 sample and all the color attachments must have more than 1 sample.
/// - If `resolve_attachments` is not empty, all the resolve attachments must have the same format
///   as the color attachments.
/// - If the first use of an attachment in this renderpass is as an input attachment and the
///   attachment is not also used as a color or depth/stencil attachment in the same subpass,
///   then the loading operation must not be `Clear`.
#[derive(Debug)]
pub struct LayoutPassDescription {
    /// Indices and layouts of attachments to use as color attachments.
    pub color_attachments: Vec<(usize, ImageLayout)>,
    /// Index and layout of the attachment to use as depth-stencil attachment.
    pub depth_stencil: Option<(usize, ImageLayout)>,
    /// Indices and layouts of attachments to use as input attachments.
    pub input_attachments: Vec<(usize, ImageLayout)>,
    /// If not empty, each color attachment will be resolved into each corresponding entry of
    /// this list.
    ///
    /// If this value is not empty, it **must** be the same length as `color_attachments`.
    pub resolve_attachments: Vec<(usize, ImageLayout)>,
    /// Indices of attachments that will be preserved during this pass.
    pub preserve_attachments: Vec<usize>,
}

/// What a `LayoutPassDescription` says.
pub struct LayoutPass {
    /// Color attachments.
    pub color_attachments: Seq<(usize, ImageLayout)>,
    /// Depth-stencil attachment.
    pub depth_stencil: Option<(usize, ImageLayout)>,
    /// Input attachments.
    pub input_attachments: Seq<(usize, ImageLayout)>,
    /// Attachments that the color attachments are resolved into.
    pub resolve_attachments: Seq<(usize, ImageLayout)>,
    /// Attachments that are preserved.
    pub preserve_attachments: Seq<usize>,
}

impl View for LayoutPassDescription {
    type V = LayoutPass;

    open spec fn view(&self) -> LayoutPass {
        LayoutPass {
            color_attachments: self.color_attachments@,
            depth_stencil: self.depth_stencil,
            input_attachments: self.input_attachments@,
            resolve_attachments: self.resolve_attachments@,
            preserve_attachments: self.preserve_attachments@,
        }
    }
}

/// What each description of a list says.
pub open spec fn views_of(passes: Seq<LayoutPassDescription>) -> Seq<LayoutPass> {
    passes.map_values(|p: LayoutPassDescription| p@)
}

impl Clone for LayoutPassDescription {
    fn clone(&self) -> (r: Self)
        ensures
            r@ == self@,
            r.color_attachments@ == self.color_attachments@,
            r.depth_stencil == self.depth_stencil,
            r.input_attachments@ == self.input_attachments@,
            r.resolve_attachments@ == self.resolve_attachments@,
            r.preserve_attachments@ == self.preserve_attachments@,
    {
        LayoutPassDescription {
            color_attachments: copy_refs(&self.color_attachments),
            depth_stencil: self.depth_stencil,
            input_attachments: copy_refs(&self.input_attachments),
            resolve_attachments: copy_refs(&self.resolve_attachments),
            preserve_attachments: self.preserve_attachments.clone(),
        }
    }
}

fn copy_refs(refs: &Vec<(usize, ImageLayout)>) -> (r: Vec<(usize, ImageLayout)>)
    ensures
        r@ == refs@,
{
    let mut r: Vec<(usize, ImageLayout)> = Vec::new();
    let mut i: usize = 0;
    while i < refs.len()
        invariant
            i <= refs@.len(),
            r@ =~= refs@.take(i as int),
        decreases refs@.len() - i,
    {
        r.push(refs[i]);
        i += 1;
    }
    assert(refs@.take(i as int) =~= refs@);
    r
}

/// Describes a dependency between two passes of a render pass.
///
/// The implementation is allowed to change the order of the passes within a render pass, unless
/// you specify that there exists a dependency between two passes (ie. the result of one will be
/// used as the input of another one).
#[derive(Debug, PartialEq, Eq, Structural)]
pub struct LayoutPassDependencyDescription {
    /// Index of the subpass that writes the data that `destination_subpass` is going to use.
    pub source_subpass: usize,
    /// Index of the subpass that reads the data that `source_subpass` wrote.
    pub destination_subpass: usize,
    /// Whether the dependency is by region of the framebuffer.
    pub by_region: bool,
}

impl Clone for LayoutPassDependencyDescription {
    fn clone(&self) -> (r: Self)
        ensures
            r == *self,
    {
        LayoutPassDependencyDescription {
            source_subpass: self.source_subpass,
            destination_subpass: self.destination_subpass,
            by_region: self.by_region,
        }
    }
}

/// Describes what the implementation should do with an attachment after all the subpasses have
/// completed.
#[derive(Debug, Copy, Clone, PartialEq, Eq, Structural, Hash)]
pub enum StoreOp {
    /// The attachment will be stored. This is what you usually want.
    Store,
    /// What happens is implementation-specific.
    ///
    /// This is purely an optimization compared to `Store`. The implementation doesn't need to copy
    /// from the internal cache to the memory, which saves bandwidth.
    ///
    /// This doesn't mean that the data won't be copied, as an implementation is also free to not
    /// use a cache and write the output directly in memory.
    DontCare,
}

impl StoreOp {
    /// The `VkAttachmentStoreOp` value.
    pub open spec fn vk_value(self) -> u32 {
        match self {
            StoreOp::Store => 0,
            StoreOp::DontCare => 1,
        }
    }

    /// Returns the `VkAttachmentStoreOp` value.
    pub fn to_vk(self) -> (r: u32)
        ensures
            r == self.vk_value(),
            r == 0 <==> self is Store,
            r == 1 <==> self is DontCare,
    {
        match self {
            StoreOp::Store => 0,
            StoreOp::DontCare => 1,
        }
    }
}

/// Describes what the implementation should do with an attachment at the start of the subpass.
#[derive(Debug, Copy, Clone, PartialEq, Eq, Structural, Hash)]
pub enum LoadOp {
    /// The attachment will be loaded. This is what you want if you want to draw over
    /// something existing.
    Load,
    /// The attachment will be cleared by the implementation with a uniform value that you must
    /// provide when you start drawing.
    ///
    /// This is what you usually use at the start of a frame, in order to reset the content of
    /// the color, depth and/or stencil buffers.
    Clear,
    /// The attachment will have undefined content.
    ///
    /// This is what you should use for attachments that you intend to overwrite entirely.
    DontCare,
}

impl LoadOp {
    /// The `VkAttachmentLoadOp` value.
    pub open spec fn vk_value(self) -> u32 {
        match self {
            LoadOp::Load => 0,
            LoadOp::Clear => 1,
            LoadOp::DontCare => 2,
        }
    }

    /// Returns the `VkAttachmentLoadOp` value.
    pub fn to_vk(self) -> (r: u32)
        ensures
            r == self.vk_value(),
            r == 0 <==> self is Load,
            r == 1 <==> self is Clear,
            r == 2 <==> self is DontCare,
    {
        match self {
            LoadOp::Load => 0,
            LoadOp::Clear => 1,
            LoadOp::DontCare => 2,
        }
    }
}

/// The attachment that the entry `k` of a list refers to, if the list has such an entry and it is the
/// index of an attachment.
pub open spec fn attachment_of(
    attachments: Seq<LayoutAttachmentDescription>,
    refs: Seq<(usize, ImageLayout)>,
    k: int,
) -> Option<LayoutAttachmentDescription> {
    if 0 <= k < refs.len() && refs[k].0 < attachments.len() {
        Some(attachments[refs[k].0 as int])
    } else {
        None
    }
}

/// The number of samples of the first attachment that a list refers to.
pub open spec fn first_samples(
    attachments: Seq<LayoutAttachmentDescription>,
    refs: Seq<(usize, ImageLayout)>,
) -> Option<u32>
    decreases refs.len(),
{
    if refs.len() == 0 {
        None
    } else {
        match attachment_of(attachments, refs, 0) {
            Some(a) => Some(a.samples),
            None => first_samples(attachments, refs.drop_first()),
        }
    }
}

impl LayoutPass {
    /// The depth-stencil attachment as a list.
    pub open spec fn depth_stencil_refs(self) -> Seq<(usize, ImageLayout)> {
        match self.depth_stencil {
            Some(d) => seq![d],
            None => seq![],
        }
    }

    /// The attachments that the pass draws to: its color attachments, then its depth-stencil
    /// attachment.
    pub open spec fn output_refs(self) -> Seq<(usize, ImageLayout)> {
        self.color_attachments + self.depth_stencil_refs()
    }
}

/// Returns the number of samples of the first attachment that a list refers to.
fn find_samples(
    attachments: &Vec<LayoutAttachmentDescription>,
    refs: &Vec<(usize, ImageLayout)>,
) -> (r: Option<u32>)
    ensures
        r == first_samples(attachments@, refs@),
{
    let mut i: usize = 0;
    assert(refs@.skip(0) =~= refs@);
    while i < refs.len()
        invariant
            i <= refs@.len(),
            first_samples(attachments@, refs@) == first_samples(attachments@, refs@.skip(i as int)),
        decreases refs@.len() - i,
    {
        assert(refs@.skip(i as int)[0] == refs@[i as int]);
        if refs[i].0 < attachments.len() {
            return Some(attachments[refs[i].0].samples);
        }
        assert(refs@.skip(i as int).drop_first() =~= refs@.skip(i + 1));
        i += 1;
    }
    None
}

/// The first attachment of two lists, one after the other, is that of the first list, or that of the
/// second if the first list has none.
proof fn lemma_first_samples_concat(
    attachments: Seq<LayoutAttachmentDescription>,
    a: Seq<(usize, ImageLayout)>,
    b: Seq<(usize, ImageLayout)>,
)
    ensures
        first_samples(attachments, a + b) == (match first_samples(attachments, a) {
            Some(n) => Some(n),
            None => first_samples(attachments, b),
        }),
    decreases a.len(),
{
    if a.len() == 0 {
        assert(a + b =~= b);
    } else {
        assert((a + b)[0] == a[0]);
        assert((a + b).drop_first() =~= a.drop_first() + b);
        lemma_first_samples_concat(attachments, a.drop_first(), b);
    }
}

/// Represents a subpass within a `RenderPass` object.
///
/// This struct doesn't correspond to anything in Vulkan. It is simply an equivalent to a
/// tuple of a render pass and subpass index. Contrary to a tuple, however, the existence of the
/// subpass is checked when the object is created. When you have a `Subpass` you are guaranteed
/// that the given subpass does exist: that is an invariant of the type, which is why the type asks
/// for a description of the render pass.
pub struct Subpass<'a, L> where L: RenderPass + RenderPassDesc {
    render_pass: &'a Arc<L>,
    subpass_id: u32,
}

impl<'a, L> Subpass<'a, L> where L: RenderPass + RenderPassDesc {
    /// Whether the subpass does exist in its render pass: its index is below the number of
    /// subpasses.
    pub open spec fn wf(&self) -> bool {
        self.id() < low_32(self.owner().pass_seq().len())
    }

    #[verifier::type_invariant]
    spec fn exists_in_owner(self) -> bool {
        self.wf()
    }

    /// The description of the subpass.
    pub open spec fn pass(&self) -> LayoutPass {
        self.owner().pass_seq()[self.id() as int]
    }

    /// Returns a handle that represents a subpass of a render pass, or `None` if there is no such
    /// subpass.
    pub fn from(render_pass: &'a Arc<L>, id: u32) -> (r: Option<Subpass<'a, L>>)
        ensures
            r is Some <==> id < low_32(render_pass.pass_seq().len()),
            r is Some ==> id < render_pass.pass_seq().len(),
            render_pass.pass_seq().len() <= u32::MAX ==> (r is Some <==> id
                < render_pass.pass_seq().len()),
            r matches Some(subpass) ==> {
                &&& subpass.wf()
                &&& subpass.owner() == *render_pass
                &&& subpass.id() == id
            },
    {
        if id < render_pass.num_subpasses() {
            Some(Subpass { render_pass, subpass_id: id })
        } else {
            None
        }
    }

    /// Returns the number of color attachments in this subpass.
    pub fn num_color_attachments(&self) -> (r: u32)
        ensures
            self.wf(),
            r == low_32(self.pass().color_attachments.len()),
            self.owner().pass_seq()[self.id() as int].color_attachments.len() <= u32::MAX ==> r
                == self.owner().pass_seq()[self.id() as int].color_attachments.len(),
    {
        proof {
            use_type_invariant(self);
        }
        self.render_pass.num_color_attachments(self.subpass_id).unwrap()
    }

    /// Returns true if the subpass has any color or depth/stencil attachment.
    pub fn has_color_or_depth_stencil_attachment(&self) -> (r: bool)
        ensures
            self.wf(),
            r <==> self.pass().color_attachments.len() > 0 || self.pass().depth_stencil is Some,
            r <==> self.owner().pass_seq()[self.id() as int].color_attachments.len() > 0
                || self.owner().pass_seq()[self.id() as int].depth_stencil is Some,
    {
        proof {
            use_type_invariant(self);
        }
        let passes: Vec<LayoutPassDescription> = self.render_pass.passes();
        assert(views_of(passes@).len() == passes@.len());
        assert(self.pass() == passes@[self.subpass_id as int]@);
        let pass: &LayoutPassDescription = &passes[self.subpass_id as usize];
        pass.color_attachments.len() > 0 || pass.depth_stencil.is_some()
    }

    /// Returns the number of samples in the color and/or depth/stencil attachments. Returns `None`
    /// if there is no such attachment in this subpass.
    pub fn num_samples(&self) -> (r: Option<u32>)
        ensures
            self.wf(),
            r == first_samples(self.owner().attachment_seq(), self.pass().output_refs()),
            ({
                let attachments = self.owner().attachment_seq();
                let color = self.owner().pass_seq()[self.id() as int].color_attachments;
                let depth = self.owner().pass_seq()[self.id() as int].depth_stencil;
                match r {
                    Some(n) => {
                        ||| exists|k: int|
                            {
                                &&& 0 <= k < color.len()
                                &&& (#[trigger] color[k]).0 < attachments.len()
                                &&& attachments[color[k].0 as int].samples == n
                                &&& forall|j: int|
                                    0 <= j < k ==> (#[trigger] color[j]).0 >= attachments.len()
                            }
                        ||| {
                            &&& forall|j: int|
                                0 <= j < color.len() ==> (#[trigger] color[j]).0 >= attachments.len()
                            &&& depth matches Some(d) && d.0 < attachments.len()
                                && attachments[d.0 as int].samples == n
                        }
                    },
                    None => {
                        &&& forall|j: int|
                            0 <= j < color.len() ==> (#[trigger] color[j]).0 >= attachments.len()
                        &&& depth matches Some(d) ==> d.0 >= attachments.len()
                    },
                }
            }),
    {
        proof {
            use_type_invariant(self);
            law_samples_of_first_output(self.owner().attachment_seq(), self.pass());
        }
        let attachments: Vec<LayoutAttachmentDescription> = self.render_pass.attachments();
        let passes: Vec<LayoutPassDescription> = self.render_pass.passes();
        assert(views_of(passes@).len() == passes@.len());
        assert(self.pass() == passes@[self.subpass_id as int]@);
        let pass: &LayoutPassDescription = &passes[self.subpass_id as usize];
        proof {
            lemma_first_samples_concat(
                attachments@,
                pass@.color_attachments,
                pass@.depth_stencil_refs(),
            );
            reveal_with_fuel(first_samples, 2);
        }
        let of_color: Option<u32> = find_samples(&attachments, &pass.color_attachments);
        if of_color.is_some() {
            return of_color;
        }
        match pass.depth_stencil {
            Some((index, _)) => {
                if index < attachments.len() {
                    Some(attachments[index].samples)
                } else {
                    None
                }
            },
            None => None,
        }
    }
}

impl<'a, L> Subpass<'a, L> where L: RenderPass + RenderPassDesc {
    /// The render pass of this subpass.
    pub closed spec fn owner(&self) -> Arc<L> {
        *self.render_pass
    }

    /// The index of this subpass within the render pass.
    pub closed spec fn id(&self) -> u32 {
        self.subpass_id
    }

    /// Returns the render pass of this subpass.
    pub fn render_pass(&self) -> (r: &'a Arc<L>)
        ensures
            *r == self.owner(),
    {
        self.render_pass
    }

    /// Returns the index of this subpass within the renderpass.
    pub fn index(&self) -> (r: u32)
        ensures
            self.wf(),
            r == self.id(),
            r < self.owner().pass_seq().len(),
    {
        proof {
            use_type_invariant(self);
        }
        self.subpass_id
    }
}

// Written by hand, because with a derive they would ask for the same of `L`.
impl<'a, L> Copy for Subpass<'a, L> where L: RenderPass + RenderPassDesc {

}

impl<'a, L> Clone for Subpass<'a, L> where L: RenderPass + RenderPassDesc {
    fn clone(&self) -> (r: Subpass<'a, L>)
        ensures
            r == *self,
    {
        proof {
            use_type_invariant(self);
        }
        Subpass { render_pass: self.render_pass, subpass_id: self.subpass_id }
    }
}

/// Whether every entry of a list is the index of an attachment.
pub open spec fn refs_valid(
    attachments: Seq<LayoutAttachmentDescription>,
    refs: Seq<(usize, ImageLayout)>,
) -> bool {
    forall|k: int| 0 <= k < refs.len() ==> (#[trigger] refs[k]).0 < attachments.len()
}

/// A pass that draws to nothing has no number of samples. A pass that draws to attachments, all with
/// the same number of samples, has that number.
pub proof fn law_samples_of_pass(
    attachments: Seq<LayoutAttachmentDescription>,
    pass: LayoutPass,
    samples: u32,
)
    requires
        refs_valid(attachments, pass.output_refs()),
        forall|k: int|
            0 <= k < pass.output_refs().len() ==> attachments[(
            #[trigger] pass.output_refs()[k]).0 as int].samples == samples,
    ensures
        first_samples(attachments, pass.output_refs()) == (if pass.color_attachments.len() > 0
            || pass.depth_stencil is Some {
            Some(samples)
        } else {
            None
        }),
{
    if pass.output_refs().len() > 0 {
        let first = pass.output_refs()[0];
        assert(first.0 < attachments.len());
        assert(attachments[first.0 as int].samples == samples);
    }
}

/// The number of samples of a subpass is that of one of the attachments that it draws to.
pub proof fn law_samples_come_from_attachment(
    attachments: Seq<LayoutAttachmentDescription>,
    refs: Seq<(usize, ImageLayout)>,
)
    ensures
        match first_samples(attachments, refs) {
            Some(n) => exists|k: int| (
            #[trigger] attachment_of(attachments, refs, k)) matches Some(a) && a.samples == n,
            None => forall|k: int| (#[trigger] attachment_of(attachments, refs, k)) is None,
        },
    decreases refs.len(),
{
    if refs.len() > 0 && attachment_of(attachments, refs, 0) is None {
        let rest = refs.drop_first();
        law_samples_come_from_attachment(attachments, rest);
        match first_samples(attachments, rest) {
            Some(n) => {
                let k = choose|k: int| (
                #[trigger] attachment_of(attachments, rest, k)) matches Some(a) && a.samples == n;
                assert(attachment_of(attachments, refs, k + 1) == attachment_of(
                    attachments,
                    rest,
                    k,
                ));
            },
            None => {
                assert forall|k: int| (#[trigger] attachment_of(attachments, refs, k)) is None by {
                    if k > 0 {
                        assert(attachment_of(attachments, rest, k - 1) is None);
                    }
                }
            },
        }
    } else if refs.len() > 0 {
        assert(attachment_of(attachments, refs, 0) is Some);
    }
}

/// A subpass can be made of an index exactly if the render pass tells the number of color attachments
/// of that index, as long as the subpasses can be counted in 32 bits.
pub proof fn law_subpass_exists<L: RenderPass + RenderPassDesc>(render_pass: L, id: u32)
    requires
        render_pass.pass_seq().len() <= u32::MAX,
    ensures
        id < low_32(render_pass.pass_seq().len()) <==> color_count(
            render_pass.pass_seq(),
            id,
        ) is Some,
{
}

/// Where a subpass can be made of an index, the render pass tells the number of color attachments of
/// that index, however many subpasses there are.
pub proof fn law_subpass_has_color_count<L: RenderPass + RenderPassDesc>(render_pass: L, id: u32)
    requires
        id < low_32(render_pass.pass_seq().len()),
    ensures
        color_count(render_pass.pass_seq(), id) is Some,
{
}

/// A number that fits in 32 bits is its own count; the count of any other differs from the number by a
/// multiple of two to the power of 32.
pub proof fn law_counts_are_lengths(n: nat)
    ensures
        n <= u32::MAX ==> low_32(n) == n,
        low_32(n) <= n,
        exists|m: nat| n == #[trigger] (m * 0x1_0000_0000) + low_32(n),
{
    vstd::arithmetic::div_mod::lemma_fundamental_div_mod(n as int, 0x1_0000_0000);
    let m = n / 0x1_0000_0000;
    assert(n == (m * 0x1_0000_0000) + low_32(n));
}

/// The number of color attachments is told exactly of the passes that there are. It is the length of
/// the list of color attachments, or differs from it by a multiple of two to the power of 32 where the
/// length does not fit in 32 bits.
pub proof fn law_color_count_is_length(passes: Seq<LayoutPass>, i: u32)
    ensures
        color_count(passes, i) is Some <==> i < passes.len(),
        color_count(passes, i) matches Some(n) ==> {
            let length = passes[i as int].color_attachments.len();
            &&& length <= u32::MAX ==> n == length
            &&& exists|m: nat| length == #[trigger] (m * 0x1_0000_0000) + n
        },
{
    if i < passes.len() {
        law_counts_are_lengths(passes[i as int].color_attachments.len());
    }
}

/// A pass with one more color attachment has a count that is one more.
pub proof fn law_color_count_grows(
    passes: Seq<LayoutPass>,
    i: u32,
    pass: LayoutPass,
    color: (usize, ImageLayout),
)
    requires
        i < passes.len(),
        pass.color_attachments == passes[i as int].color_attachments.push(color),
        pass.color_attachments.len() <= u32::MAX,
    ensures
        color_count(passes.update(i as int, pass), i).unwrap() == color_count(passes, i).unwrap()
            + 1,
{
}

/// Attachments are compatible exactly if their formats are the same and their numbers of samples are
/// the same. Nothing else of them matters.
pub proof fn law_attachments_compatible(
    a: LayoutAttachmentDescription,
    b: LayoutAttachmentDescription,
)
    ensures
        a.compatible(b) ==> a.format == b.format,
        a.compatible(b) ==> a.samples == b.samples,
        a.format.code == b.format.code && a.samples == b.samples ==> a.compatible(b),
{
}

/// What a description says of a pass is what its lists hold.
pub proof fn law_pass_view(pass: LayoutPassDescription)
    ensures
        pass@.color_attachments == pass.color_attachments@,
        pass@.depth_stencil == pass.depth_stencil,
        pass@.input_attachments == pass.input_attachments@,
        pass@.resolve_attachments == pass.resolve_attachments@,
        pass@.preserve_attachments == pass.preserve_attachments@,
{
}

/// A list of descriptions says as much as each of its descriptions, one by one and in order.
pub proof fn law_views_of(passes: Seq<LayoutPassDescription>, i: int)
    requires
        0 <= i < passes.len(),
    ensures
        views_of(passes).len() == passes.len(),
        views_of(passes)[i].color_attachments == passes[i].color_attachments@,
        views_of(passes)[i].depth_stencil == passes[i].depth_stencil,
        views_of(passes)[i].input_attachments == passes[i].input_attachments@,
        views_of(passes)[i].resolve_attachments == passes[i].resolve_attachments@,
        views_of(passes)[i].preserve_attachments == passes[i].preserve_attachments@,
{
}

/// What a render pass object is made of is what its lists hold.
pub proof fn law_layout_view(render_pass: UnsafeRenderPass)
    ensures
        render_pass@.attachments == render_pass.attachments@,
        render_pass@.passes.len() == render_pass.passes@.len(),
        forall|i: int|
            0 <= i < render_pass.passes@.len() ==> #[trigger] render_pass@.passes[i]
                == render_pass.passes@[i]@,
        render_pass@.dependencies == render_pass.dependencies@,
{
}

/// A subpass is described by the pass of its index in its render pass.
pub proof fn law_subpass_pass<'a, L: RenderPass + RenderPassDesc>(subpass: Subpass<'a, L>)
    ensures
        subpass.pass() == subpass.owner().pass_seq()[subpass.id() as int],
        subpass.wf() ==> subpass.id() < subpass.owner().pass_seq().len(),
{
}

/// The number of samples of a pass is that of the first color attachment that exists, or, if no color
/// attachment exists, that of the depth/stencil attachment. There is none exactly if none of these
/// exists.
pub proof fn law_samples_of_first_output(
    attachments: Seq<LayoutAttachmentDescription>,
    pass: LayoutPass,
)
    ensures
        ({
            let color = pass.color_attachments;
            let depth = pass.depth_stencil;
            match first_samples(attachments, pass.output_refs()) {
                Some(n) => {
                    ||| exists|k: int|
                        {
                            &&& 0 <= k < color.len()
                            &&& (#[trigger] color[k]).0 < attachments.len()
                            &&& attachments[color[k].0 as int].samples == n
                            &&& forall|j: int|
                                0 <= j < k ==> (#[trigger] color[j]).0 >= attachments.len()
                        }
                    ||| {
                        &&& forall|j: int|
                            0 <= j < color.len() ==> (#[trigger] color[j]).0 >= attachments.len()
                        &&& depth matches Some(d) && d.0 < attachments.len()
                            && attachments[d.0 as int].samples == n
                    }
                },
                None => {
                    &&& forall|j: int|
                        0 <= j < color.len() ==> (#[trigger] color[j]).0 >= attachments.len()
                    &&& depth matches Some(d) ==> d.0 >= attachments.len()
                },
            }
        }),
{
    lemma_first_samples_concat(attachments, pass.color_attachments, pass.depth_stencil_refs());
    lemma_first_samples_is_first(attachments, pass.color_attachments);
    reveal_with_fuel(first_samples, 2);
}

/// The number of samples of a list is that of its first entry that is the index of an attachment.
proof fn lemma_first_samples_is_first(
    attachments: Seq<LayoutAttachmentDescription>,
    refs: Seq<(usize, ImageLayout)>,
)
    ensures
        match first_samples(attachments, refs) {
            Some(n) => exists|k: int|
                {
                    &&& 0 <= k < refs.len()
                    &&& (#[trigger] refs[k]).0 < attachments.len()
                    &&& attachments[refs[k].0 as int].samples == n
                    &&& forall|j: int| 0 <= j < k ==> (#[trigger] refs[j]).0 >= attachments.len()
                },
            None => forall|j: int|
                0 <= j < refs.len() ==> (#[trigger] refs[j]).0 >= attachments.len(),
        },
    decreases refs.len(),
{
    if refs.len() > 0 && refs[0].0 >= attachments.len() {
        let rest = refs.drop_first();
        lemma_first_samples_is_first(attachments, rest);
        match first_samples(attachments, rest) {
            Some(n) => {
                let k = choose|k: int|
                    {
                        &&& 0 <= k < rest.len()
                        &&& (#[trigger] rest[k]).0 < attachments.len()
                        &&& attachments[rest[k].0 as int].samples == n
                        &&& forall|j: int|
                            0 <= j < k ==> (#[trigger] rest[j]).0 >= attachments.len()
                    };
                assert(refs[k + 1] == rest[k]);
                assert forall|j: int| 0 <= j < k + 1 implies (#[trigger] refs[j]).0
                    >= attachments.len() by {
                    if j > 0 {
                        assert(rest[j - 1] == refs[j]);
                    }
                }
            },
            None => {
                assert forall|j: int| 0 <= j < refs.len() implies (#[trigger] refs[j]).0
                    >= attachments.len() by {
                    if j > 0 {
                        assert(rest[j - 1] == refs[j]);
                    }
                }
            },
        }
    }
}

} // verus!
