//! Compatibility of render passes, as defined in the `Render Pass Compatibility` section of the
//! Vulkan specs.
//!
//! Two references to attachments are compatible if the attachments have the same format and the
//! same number of samples, or if neither refers to an attachment. Two lists of references are
//! compatible if all the pairs of corresponding references are; an entry that only one of the
//! lists has corresponds to no attachment. Two render passes are compatible if their color, input,
//! resolve and depth/stencil references are compatible, and if they are otherwise identical except
//! for the layouts and for the load and store operations. If both have a single subpass, their
//! resolve references do not matter.

use crate::framebuffer::traits::{
    LayoutAttachmentDescription, LayoutPass, LayoutPassDependencyDescription,
    LayoutPassDescription, RenderPass, RenderPassLayout, UnsafeRenderPass,
};
use crate::image::ImageLayout;
use std::sync::Arc;
use vstd::prelude::*;

verus! {

/// Whether two references, by what they refer to, are compatible.
pub open spec fn ref_compatible(
    a: Option<LayoutAttachmentDescription>,
    b: Option<LayoutAttachmentDescription>,
) -> bool {
    match (a, b) {
        (Some(x), Some(y)) => x.compatible(y),
        (None, None) => true,
        _ => false,
    }
}

/// Whether two lists of attachments are identical in format and in number of samples.
pub open spec fn attachments_compatible(
    a: Seq<LayoutAttachmentDescription>,
    b: Seq<LayoutAttachmentDescription>,
) -> bool {
    &&& a.len() == b.len()
    &&& forall|i: int| 0 <= i < a.len() ==> (#[trigger] a[i]).compatible(b[i])
}

/// Whether two lists of references are compatible. The first refers to attachments in `a`, the
/// second to attachments in `b`.
pub open spec fn refs_compatible(
    a: Seq<LayoutAttachmentDescription>,
    a_refs: Seq<(usize, ImageLayout)>,
    b: Seq<LayoutAttachmentDescription>,
    b_refs: Seq<(usize, ImageLayout)>,
) -> bool {
    forall|k: int|
        ref_compatible(
            #[trigger] crate::framebuffer::traits::attachment_of(a, a_refs, k),
            crate::framebuffer::traits::attachment_of(b, b_refs, k),
        )
}

/// Whether two passes are compatible. `with_resolve` says whether the resolve references matter.
pub open spec fn pass_compatible(
    a: Seq<LayoutAttachmentDescription>,
    p: LayoutPass,
    b: Seq<LayoutAttachmentDescription>,
    q: LayoutPass,
    with_resolve: bool,
) -> bool {
    &&& refs_compatible(a, p.color_attachments, b, q.color_attachments)
    &&& refs_compatible(a, p.input_attachments, b, q.input_attachments)
    &&& refs_compatible(a, p.depth_stencil_refs(), b, q.depth_stencil_refs())
    &&& with_resolve ==> refs_compatible(a, p.resolve_attachments, b, q.resolve_attachments)
    &&& p.preserve_attachments == q.preserve_attachments
}

impl RenderPassLayout {
    /// Whether two render passes are compatible.
    pub open spec fn compatible(self, other: RenderPassLayout) -> bool {
        &&& attachments_compatible(self.attachments, other.attachments)
        &&& self.passes.len() == other.passes.len()
        &&& forall|i: int|
            0 <= i < self.passes.len() ==> pass_compatible(
                self.attachments,
                #[trigger] self.passes[i],
                other.attachments,
                other.passes[i],
                self.passes.len() != 1,
            )
        &&& self.dependencies == other.dependencies
    }
}

fn attachments_are_compatible(
    a: &Vec<LayoutAttachmentDescription>,
    b: &Vec<LayoutAttachmentDescription>,
) -> (r: bool)
    ensures
        r == attachments_compatible(a@, b@),
{
    if a.len() != b.len() {
        return false;
    }
    let mut i: usize = 0;
    while i < a.len()
        invariant
            a@.len() == b@.len(),
            i <= a@.len(),
            forall|j: int| 0 <= j < i ==> (#[trigger] a@[j]).compatible(b@[j]),
        decreases a@.len() - i,
    {
        if !a[i].is_compatible_with(&b[i]) {
            assert(!a@[i as int].compatible(b@[i as int]));
            return false;
        }
        i += 1;
    }
    true
}

/// Returns the attachment that the entry `k` of a list refers to.
fn find_attachment<'a>(
    attachments: &'a Vec<LayoutAttachmentDescription>,
    refs: &Vec<(usize, ImageLayout)>,
    k: usize,
) -> (r: Option<&'a LayoutAttachmentDescription>)
    ensures
        match crate::framebuffer::traits::attachment_of(attachments@, refs@, k as int) {
            Some(a) => r matches Some(x) && *x == a,
            None => r is None,
        },
{
    if k < refs.len() && refs[k].0 < attachments.len() {
        Some(&attachments[refs[k].0])
    } else {
        None
    }
}

fn refs_are_compatible(
    a: &Vec<LayoutAttachmentDescription>,
    a_refs: &Vec<(usize, ImageLayout)>,
    b: &Vec<LayoutAttachmentDescription>,
    b_refs: &Vec<(usize, ImageLayout)>,
) -> (r: bool)
    ensures
        r == refs_compatible(a@, a_refs@, b@, b_refs@),
{
    let n: usize = if a_refs.len() < b_refs.len() {
        b_refs.len()
    } else {
        a_refs.len()
    };
    let mut k: usize = 0;
    while k < n
        invariant
            k <= n,
            forall|j: int|
                0 <= j < k ==> ref_compatible(
                    #[trigger] crate::framebuffer::traits::attachment_of(a@, a_refs@, j),
                    crate::framebuffer::traits::attachment_of(b@, b_refs@, j),
                ),
        decreases n - k,
    {
        let same: bool = match (find_attachment(a, a_refs, k), find_attachment(b, b_refs, k)) {
            (Some(x), Some(y)) => x.is_compatible_with(y),
            (None, None) => true,
            _ => false,
        };
        assert(same == ref_compatible(
            crate::framebuffer::traits::attachment_of(a@, a_refs@, k as int),
            crate::framebuffer::traits::attachment_of(b@, b_refs@, k as int),
        ));
        if !same {
            return false;
        }
        k += 1;
    }
    assert forall|j: int|
        ref_compatible(
            #[trigger] crate::framebuffer::traits::attachment_of(a@, a_refs@, j),
            crate::framebuffer::traits::attachment_of(b@, b_refs@, j),
        ) by {
        if j < 0 || j >= n {
            assert(crate::framebuffer::traits::attachment_of(a@, a_refs@, j) is None);
            assert(crate::framebuffer::traits::attachment_of(b@, b_refs@, j) is None);
        }
    }
    true
}

fn depth_stencil_list(depth_stencil: &Option<(usize, ImageLayout)>) -> (r: Vec<
    (usize, ImageLayout),
>)
    ensures
        r@ == (match depth_stencil {
            Some(d) => seq![*d],
            None => Seq::<(usize, ImageLayout)>::empty(),
        }),
{
    let mut r: Vec<(usize, ImageLayout)> = Vec::new();
    match depth_stencil {
        Some(d) => {
            r.push(*d);
        },
        None => {},
    }
    r
}

fn same_indices(a: &Vec<usize>, b: &Vec<usize>) -> (r: bool)
    ensures
        r == (a@ == b@),
{
    if a.len() != b.len() {
        return false;
    }
    let mut i: usize = 0;
    while i < a.len()
        invariant
            a@.len() == b@.len(),
            i <= a@.len(),
            forall|j: int| 0 <= j < i ==> a@[j] == b@[j],
        decreases a@.len() - i,
    {
        if a[i] != b[i] {
            assert(a@[i as int] != b@[i as int]);
            return false;
        }
        i += 1;
    }
    assert(a@ =~= b@);
    true
}

fn same_dependencies(
    a: &Vec<LayoutPassDependencyDescription>,
    b: &Vec<LayoutPassDependencyDescription>,
) -> (r: bool)
    ensures
        r == (a@ == b@),
{
    if a.len() != b.len() {
        return false;
    }
    let mut i: usize = 0;
    while i < a.len()
        invariant
            a@.len() == b@.len(),
            i <= a@.len(),
            forall|j: int| 0 <= j < i ==> a@[j] == b@[j],
        decreases a@.len() - i,
    {
        let same: bool = a[i].source_subpass == b[i].source_subpass && a[i].destination_subpass
            == b[i].destination_subpass && a[i].by_region == b[i].by_region;
        if !same {
            assert(a@[i as int] != b@[i as int]);
            return false;
        }
        i += 1;
    }
    assert(a@ =~= b@);
    true
}

fn passes_are_compatible(
    a: &Vec<LayoutAttachmentDescription>,
    p: &LayoutPassDescription,
    b: &Vec<LayoutAttachmentDescription>,
    q: &LayoutPassDescription,
    with_resolve: bool,
) -> (r: bool)
    ensures
        r == pass_compatible(a@, p@, b@, q@, with_resolve),
{
    let p_depth: Vec<(usize, ImageLayout)> = depth_stencil_list(&p.depth_stencil);
    let q_depth: Vec<(usize, ImageLayout)> = depth_stencil_list(&q.depth_stencil);
    assert(p_depth@ =~= p@.depth_stencil_refs());
    assert(q_depth@ =~= q@.depth_stencil_refs());
    refs_are_compatible(a, &p.color_attachments, b, &q.color_attachments) && refs_are_compatible(
        a,
        &p.input_attachments,
        b,
        &q.input_attachments,
    ) && refs_are_compatible(a, &p_depth, b, &q_depth) && (!with_resolve || refs_are_compatible(
        a,
        &p.resolve_attachments,
        b,
        &q.resolve_attachments,
    )) && same_indices(&p.preserve_attachments, &q.preserve_attachments)
}

impl UnsafeRenderPass {
    /// Returns true if two render pass objects are compatible.
    fn is_layout_compatible(&self, other: &UnsafeRenderPass) -> (r: bool)
        ensures
            r == self@.compatible(other@),
    {
        assert(self@.passes.len() == self.passes@.len());
        assert(other@.passes.len() == other.passes@.len());
        if !attachments_are_compatible(&self.attachments, &other.attachments) {
            return false;
        }
        if self.passes.len() != other.passes.len() {
            return false;
        }
        let mut i: usize = 0;
        while i < self.passes.len()
            invariant
                self.passes@.len() == other.passes@.len(),
                self@.passes.len() == self.passes@.len(),
                i <= self.passes@.len(),
                forall|j: int|
                    0 <= j < i ==> pass_compatible(
                        self@.attachments,
                        #[trigger] self@.passes[j],
                        other@.attachments,
                        other@.passes[j],
                        self.passes@.len() != 1,
                    ),
            decreases self.passes@.len() - i,
        {
            assert(self@.passes[i as int] == self.passes@[i as int]@);
            assert(other@.passes[i as int] == other.passes@[i as int]@);
            if !passes_are_compatible(
                &self.attachments,
                &self.passes[i],
                &other.attachments,
                &other.passes[i],
                self.passes.len() != 1,
            ) {
                return false;
            }
            i += 1;
        }
        same_dependencies(&self.dependencies, &other.dependencies)
    }
}

/// Trait implemented on render pass objects to check whether they are compatible
/// with another render pass.
///
/// The trait is automatically implemented for all type that implement `RenderPass`.
pub trait RenderPassCompatible<Other>: RenderPass where Other: RenderPass {
    /// Returns `true` if this layout is compatible with the other layout, as defined in the
    /// `Render Pass Compatibility` section of the Vulkan specs.
    fn is_compatible_with(&self, other: &Arc<Other>) -> (r: bool)
        ensures
            r == self.inner()@.compatible(other.inner()@),
            r ==> self.inner().attachments@.len() == other.inner().attachments@.len(),
            r ==> forall|i: int|
                0 <= i < self.inner().attachments@.len() ==> {
                    &&& (#[trigger] self.inner().attachments@[i]).format.code
                        == other.inner().attachments@[i].format.code
                    &&& self.inner().attachments@[i].samples
                        == other.inner().attachments@[i].samples
                },
            r ==> self.inner().passes@.len() == other.inner().passes@.len(),
            r ==> self.inner().dependencies@ == other.inner().dependencies@,
    ;
}

impl<A, B> RenderPassCompatible<B> for A where A: RenderPass, B: RenderPass {
    fn is_compatible_with(&self, other: &Arc<B>) -> (r: bool) {
        proof {
            let a = self.inner();
            let b = other.inner();
            crate::framebuffer::traits::law_layout_view(a);
            crate::framebuffer::traits::law_layout_view(b);
            if a@.compatible(b@) {
                assert forall|i: int| 0 <= i < a.attachments@.len() implies {
                    &&& (#[trigger] a.attachments@[i]).format.code == b.attachments@[i].format.code
                    &&& a.attachments@[i].samples == b.attachments@[i].samples
                } by {
                    law_compatible_attachments(a@, b@, i);
                }
            }
        }
        self.render_pass().is_layout_compatible(other.render_pass())
    }
}

/// Every render pass is compatible with itself.
pub proof fn law_compatible_reflexive(a: RenderPassLayout)
    ensures
        a.compatible(a),
{
}

/// If a render pass is compatible with another, the other is compatible with it.
pub proof fn law_compatible_symmetric(a: RenderPassLayout, b: RenderPassLayout)
    ensures
        a.compatible(b) == b.compatible(a),
{
    if a.compatible(b) {
        lemma_compatible_flips(a, b);
    }
    if b.compatible(a) {
        lemma_compatible_flips(b, a);
    }
}

proof fn lemma_refs_compatible_flips(
    a: Seq<LayoutAttachmentDescription>,
    a_refs: Seq<(usize, ImageLayout)>,
    b: Seq<LayoutAttachmentDescription>,
    b_refs: Seq<(usize, ImageLayout)>,
)
    requires
        refs_compatible(a, a_refs, b, b_refs),
    ensures
        refs_compatible(b, b_refs, a, a_refs),
{
    assert forall|k: int|
        ref_compatible(
            #[trigger] crate::framebuffer::traits::attachment_of(b, b_refs, k),
            crate::framebuffer::traits::attachment_of(a, a_refs, k),
        ) by {
        assert(ref_compatible(
            crate::framebuffer::traits::attachment_of(a, a_refs, k),
            crate::framebuffer::traits::attachment_of(b, b_refs, k),
        ));
    }
}

proof fn lemma_compatible_flips(a: RenderPassLayout, b: RenderPassLayout)
    requires
        a.compatible(b),
    ensures
        b.compatible(a),
{
    assert forall|i: int| 0 <= i < b.attachments.len() implies (
    #[trigger] b.attachments[i]).compatible(a.attachments[i]) by {
        assert(a.attachments[i].compatible(b.attachments[i]));
    }
    assert forall|i: int| 0 <= i < b.passes.len() implies pass_compatible(
        b.attachments,
        #[trigger] b.passes[i],
        a.attachments,
        a.passes[i],
        b.passes.len() != 1,
    ) by {
        let p = a.passes[i];
        let q = b.passes[i];
        assert(pass_compatible(a.attachments, p, b.attachments, q, a.passes.len() != 1));
        lemma_refs_compatible_flips(
            a.attachments,
            p.color_attachments,
            b.attachments,
            q.color_attachments,
        );
        lemma_refs_compatible_flips(
            a.attachments,
            p.input_attachments,
            b.attachments,
            q.input_attachments,
        );
        lemma_refs_compatible_flips(
            a.attachments,
            p.depth_stencil_refs(),
            b.attachments,
            q.depth_stencil_refs(),
        );
        if a.passes.len() != 1 {
            lemma_refs_compatible_flips(
                a.attachments,
                p.resolve_attachments,
                b.attachments,
                q.resolve_attachments,
            );
        }
    }
}

proof fn lemma_refs_compatible_chains(
    a: Seq<LayoutAttachmentDescription>,
    a_refs: Seq<(usize, ImageLayout)>,
    b: Seq<LayoutAttachmentDescription>,
    b_refs: Seq<(usize, ImageLayout)>,
    c: Seq<LayoutAttachmentDescription>,
    c_refs: Seq<(usize, ImageLayout)>,
)
    requires
        refs_compatible(a, a_refs, b, b_refs),
        refs_compatible(b, b_refs, c, c_refs),
    ensures
        refs_compatible(a, a_refs, c, c_refs),
{
    assert forall|k: int|
        ref_compatible(
            #[trigger] crate::framebuffer::traits::attachment_of(a, a_refs, k),
            crate::framebuffer::traits::attachment_of(c, c_refs, k),
        ) by {
        assert(ref_compatible(
            crate::framebuffer::traits::attachment_of(b, b_refs, k),
            crate::framebuffer::traits::attachment_of(c, c_refs, k),
        ));
    }
}

/// If a render pass is compatible with another, and that with a third, the first is compatible with
/// the third.
pub proof fn law_compatible_transitive(
    a: RenderPassLayout,
    b: RenderPassLayout,
    c: RenderPassLayout,
)
    requires
        a.compatible(b),
        b.compatible(c),
    ensures
        a.compatible(c),
{
    assert forall|i: int| 0 <= i < a.attachments.len() implies (
    #[trigger] a.attachments[i]).compatible(c.attachments[i]) by {
        assert(b.attachments[i].compatible(c.attachments[i]));
    }
    assert forall|i: int| 0 <= i < a.passes.len() implies pass_compatible(
        a.attachments,
        #[trigger] a.passes[i],
        c.attachments,
        c.passes[i],
        a.passes.len() != 1,
    ) by {
        let p = a.passes[i];
        let q = b.passes[i];
        let r = c.passes[i];
        assert(pass_compatible(b.attachments, q, c.attachments, r, b.passes.len() != 1));
        lemma_refs_compatible_chains(
            a.attachments,
            p.color_attachments,
            b.attachments,
            q.color_attachments,
            c.attachments,
            r.color_attachments,
        );
        lemma_refs_compatible_chains(
            a.attachments,
            p.input_attachments,
            b.attachments,
            q.input_attachments,
            c.attachments,
            r.input_attachments,
        );
        lemma_refs_compatible_chains(
            a.attachments,
            p.depth_stencil_refs(),
            b.attachments,
            q.depth_stencil_refs(),
            c.attachments,
            r.depth_stencil_refs(),
        );
        if a.passes.len() != 1 {
            lemma_refs_compatible_chains(
                a.attachments,
                p.resolve_attachments,
                b.attachments,
                q.resolve_attachments,
                c.attachments,
                r.resolve_attachments,
            );
        }
    }
}

/// Whether two lists refer to the same indices, whatever the layouts.
pub open spec fn same_refs(a: Seq<(usize, ImageLayout)>, b: Seq<(usize, ImageLayout)>) -> bool {
    a.len() == b.len() && forall|k: int| 0 <= k < a.len() ==> (#[trigger] a[k]).0 == b[k].0
}

/// Whether two render passes differ at most in their layouts and in their load and store operations.
pub open spec fn same_but_layouts_and_operations(
    a: RenderPassLayout,
    b: RenderPassLayout,
) -> bool {
    &&& a.attachments.len() == b.attachments.len()
    &&& forall|i: int|
        0 <= i < a.attachments.len() ==> {
            &&& (#[trigger] a.attachments[i]).format == b.attachments[i].format
            &&& a.attachments[i].samples == b.attachments[i].samples
        }
    &&& a.passes.len() == b.passes.len()
    &&& forall|i: int|
        0 <= i < a.passes.len() ==> {
            &&& same_refs((#[trigger] a.passes[i]).color_attachments, b.passes[i].color_attachments)
            &&& same_refs(a.passes[i].input_attachments, b.passes[i].input_attachments)
            &&& same_refs(a.passes[i].resolve_attachments, b.passes[i].resolve_attachments)
            &&& same_refs(a.passes[i].depth_stencil_refs(), b.passes[i].depth_stencil_refs())
            &&& a.passes[i].preserve_attachments == b.passes[i].preserve_attachments
        }
    &&& a.dependencies == b.dependencies
}

proof fn lemma_same_refs_compatible(
    a: Seq<LayoutAttachmentDescription>,
    a_refs: Seq<(usize, ImageLayout)>,
    b: Seq<LayoutAttachmentDescription>,
    b_refs: Seq<(usize, ImageLayout)>,
)
    requires
        attachments_compatible(a, b),
        same_refs(a_refs, b_refs),
    ensures
        refs_compatible(a, a_refs, b, b_refs),
{
    assert forall|k: int|
        ref_compatible(
            #[trigger] crate::framebuffer::traits::attachment_of(a, a_refs, k),
            crate::framebuffer::traits::attachment_of(b, b_refs, k),
        ) by {
        if 0 <= k < a_refs.len() {
            assert(a_refs[k].0 == b_refs[k].0);
            let n = a_refs[k].0;
            if n < a.len() {
                assert(a[n as int].compatible(b[n as int]));
            }
        }
    }
}

/// The layouts and the load and store operations have no part in compatibility.
pub proof fn law_layouts_and_operations_ignored(a: RenderPassLayout, b: RenderPassLayout)
    requires
        same_but_layouts_and_operations(a, b),
    ensures
        a.compatible(b),
{
    assert(attachments_compatible(a.attachments, b.attachments));
    assert forall|i: int| 0 <= i < a.passes.len() implies pass_compatible(
        a.attachments,
        #[trigger] a.passes[i],
        b.attachments,
        b.passes[i],
        a.passes.len() != 1,
    ) by {
        let p = a.passes[i];
        let q = b.passes[i];
        lemma_same_refs_compatible(
            a.attachments,
            p.color_attachments,
            b.attachments,
            q.color_attachments,
        );
        lemma_same_refs_compatible(
            a.attachments,
            p.input_attachments,
            b.attachments,
            q.input_attachments,
        );
        lemma_same_refs_compatible(
            a.attachments,
            p.resolve_attachments,
            b.attachments,
            q.resolve_attachments,
        );
        lemma_same_refs_compatible(
            a.attachments,
            p.depth_stencil_refs(),
            b.attachments,
            q.depth_stencil_refs(),
        );
    }
}

/// Compatible render passes have the same number of attachments, one by one of the same format and with
/// the same number of samples. They have the same dependencies.
pub proof fn law_compatible_attachments(a: RenderPassLayout, b: RenderPassLayout, i: int)
    requires
        a.compatible(b),
        0 <= i < a.attachments.len(),
    ensures
        i < b.attachments.len(),
        a.attachments[i].compatible(b.attachments[i]),
        a.attachments[i].format == b.attachments[i].format,
        a.attachments[i].samples == b.attachments[i].samples,
        a.attachments.len() == b.attachments.len(),
        a.dependencies == b.dependencies,
{
}

/// Compatible lists of references agree entry by entry: either both entries refer to an attachment, and
/// these have the same format and the same number of samples, or neither does.
pub proof fn law_compatible_refs_agree(
    a: Seq<LayoutAttachmentDescription>,
    a_refs: Seq<(usize, ImageLayout)>,
    b: Seq<LayoutAttachmentDescription>,
    b_refs: Seq<(usize, ImageLayout)>,
    k: int,
)
    requires
        refs_compatible(a, a_refs, b, b_refs),
        0 <= k,
    ensures
        (k < a_refs.len() && a_refs[k].0 < a.len()) == (k < b_refs.len() && b_refs[k].0 < b.len()),
        k < a_refs.len() && a_refs[k].0 < a.len() ==> {
            &&& a[a_refs[k].0 as int].format == b[b_refs[k].0 as int].format
            &&& a[a_refs[k].0 as int].samples == b[b_refs[k].0 as int].samples
        },
{
    assert(ref_compatible(
        crate::framebuffer::traits::attachment_of(a, a_refs, k),
        crate::framebuffer::traits::attachment_of(b, b_refs, k),
    ));
}

/// Lists of references that agree entry by entry are compatible. An entry that only one of the lists
/// has refers to no attachment in the other.
pub proof fn law_agreeing_refs_are_compatible(
    a: Seq<LayoutAttachmentDescription>,
    a_refs: Seq<(usize, ImageLayout)>,
    b: Seq<LayoutAttachmentDescription>,
    b_refs: Seq<(usize, ImageLayout)>,
)
    requires
        forall|k: int|
            #![trigger a_refs[k]]
            0 <= k ==> {
                &&& (k < a_refs.len() && a_refs[k].0 < a.len()) == (k < b_refs.len() && b_refs[k].0
                    < b.len())
                &&& k < a_refs.len() && a_refs[k].0 < a.len() ==> {
                    &&& a[a_refs[k].0 as int].format == b[b_refs[k].0 as int].format
                    &&& a[a_refs[k].0 as int].samples == b[b_refs[k].0 as int].samples
                }
            },
    ensures
        refs_compatible(a, a_refs, b, b_refs),
{
    assert forall|k: int|
        ref_compatible(
            #[trigger] crate::framebuffer::traits::attachment_of(a, a_refs, k),
            crate::framebuffer::traits::attachment_of(b, b_refs, k),
        ) by {
        let entry = a_refs[k];
    }
}

/// The color, input and depth/stencil references of compatible render passes agree, pass by pass and
/// entry by entry: either both refer to an attachment, and these have the same format and the same
/// number of samples, or neither does. So do the resolve references, unless there is a single pass. The
/// preserved attachments are the same.
pub proof fn law_compatible_passes_agree(a: RenderPassLayout, b: RenderPassLayout, i: int, k: int)
    requires
        a.compatible(b),
        0 <= i < a.passes.len(),
        0 <= k,
    ensures
        a.passes.len() == b.passes.len(),
        a.passes[i].preserve_attachments == b.passes[i].preserve_attachments,
        ({
            let p = a.passes[i].depth_stencil;
            let q = b.passes[i].depth_stencil;
            &&& (p is Some && p.unwrap().0 < a.attachments.len()) == (q is Some && q.unwrap().0
                < b.attachments.len())
            &&& p is Some && p.unwrap().0 < a.attachments.len() ==> {
                &&& a.attachments[p.unwrap().0 as int].format
                    == b.attachments[q.unwrap().0 as int].format
                &&& a.attachments[p.unwrap().0 as int].samples
                    == b.attachments[q.unwrap().0 as int].samples
            }
        }),
        ({
            let p = a.passes[i].color_attachments;
            let q = b.passes[i].color_attachments;
            &&& (k < p.len() && p[k].0 < a.attachments.len()) == (k < q.len() && q[k].0
                < b.attachments.len())
            &&& k < p.len() && p[k].0 < a.attachments.len() ==> {
                &&& a.attachments[p[k].0 as int].format == b.attachments[q[k].0 as int].format
                &&& a.attachments[p[k].0 as int].samples == b.attachments[q[k].0 as int].samples
            }
        }),
        ({
            let p = a.passes[i].input_attachments;
            let q = b.passes[i].input_attachments;
            &&& (k < p.len() && p[k].0 < a.attachments.len()) == (k < q.len() && q[k].0
                < b.attachments.len())
            &&& k < p.len() && p[k].0 < a.attachments.len() ==> {
                &&& a.attachments[p[k].0 as int].format == b.attachments[q[k].0 as int].format
                &&& a.attachments[p[k].0 as int].samples == b.attachments[q[k].0 as int].samples
            }
        }),
        a.passes.len() != 1 ==> ({
            let p = a.passes[i].resolve_attachments;
            let q = b.passes[i].resolve_attachments;
            &&& (k < p.len() && p[k].0 < a.attachments.len()) == (k < q.len() && q[k].0
                < b.attachments.len())
            &&& k < p.len() && p[k].0 < a.attachments.len() ==> {
                &&& a.attachments[p[k].0 as int].format == b.attachments[q[k].0 as int].format
                &&& a.attachments[p[k].0 as int].samples == b.attachments[q[k].0 as int].samples
            }
        }),
{
    let p = a.passes[i];
    let q = b.passes[i];
    assert(pass_compatible(a.attachments, p, b.attachments, q, a.passes.len() != 1));
    law_compatible_refs_agree(
        a.attachments,
        p.color_attachments,
        b.attachments,
        q.color_attachments,
        k,
    );
    law_compatible_refs_agree(
        a.attachments,
        p.input_attachments,
        b.attachments,
        q.input_attachments,
        k,
    );
    law_compatible_refs_agree(
        a.attachments,
        p.depth_stencil_refs(),
        b.attachments,
        q.depth_stencil_refs(),
        0,
    );
    if a.passes.len() != 1 {
        law_compatible_refs_agree(
            a.attachments,
            p.resolve_attachments,
            b.attachments,
            q.resolve_attachments,
            k,
        );
    }
}

/// Render passes are compatible if their attachments have, one by one, the same format and the same
/// number of samples, if the references of their passes are compatible, the resolve references of a
/// single pass aside, and if they preserve the same attachments and have the same dependencies.
pub proof fn law_agreeing_render_passes_are_compatible(a: RenderPassLayout, b: RenderPassLayout)
    requires
        a.attachments.len() == b.attachments.len(),
        forall|i: int|
            0 <= i < a.attachments.len() ==> {
                &&& (#[trigger] a.attachments[i]).format == b.attachments[i].format
                &&& a.attachments[i].samples == b.attachments[i].samples
            },
        a.passes.len() == b.passes.len(),
        forall|i: int|
            0 <= i < a.passes.len() ==> {
                &&& refs_compatible(
                    a.attachments,
                    (#[trigger] a.passes[i]).color_attachments,
                    b.attachments,
                    b.passes[i].color_attachments,
                )
                &&& refs_compatible(
                    a.attachments,
                    a.passes[i].input_attachments,
                    b.attachments,
                    b.passes[i].input_attachments,
                )
                &&& a.passes.len() > 1 ==> refs_compatible(
                    a.attachments,
                    a.passes[i].resolve_attachments,
                    b.attachments,
                    b.passes[i].resolve_attachments,
                )
                &&& refs_compatible(
                    a.attachments,
                    match a.passes[i].depth_stencil {
                        Some(d) => seq![d],
                        None => seq![],
                    },
                    b.attachments,
                    match b.passes[i].depth_stencil {
                        Some(d) => seq![d],
                        None => seq![],
                    },
                )
                &&& a.passes[i].preserve_attachments == b.passes[i].preserve_attachments
            },
        a.dependencies == b.dependencies,
    ensures
        a.compatible(b),
{
}

} // verus!
