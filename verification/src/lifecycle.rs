//! The event loop's decisions and the order of tear-down.
use vstd::prelude::*;

verus! {

/// The window-system events the main loop tells apart.
#[derive(Clone, Copy, Debug, PartialEq, Eq, Structural)]
pub enum LoopEvent {
    /// The event loop is being torn down.
    LoopDestroyed,
    /// The user asked to close the window.
    CloseRequested,
    /// Any other window event.
    OtherWindowEvent,
    /// The window should be redrawn.
    RedrawRequested,
    /// Any other event.
    Other,
}

/// What the event loop does after an event.
#[derive(Clone, Copy, Debug, PartialEq, Eq, Structural)]
pub enum LoopControl {
    /// Sleep until the next event.
    Wait,
    /// Leave the event loop.
    Exit,
}

/// The loop's response to one event.
#[derive(Clone, Copy, Debug, PartialEq, Eq, Structural)]
pub struct LoopResponse {
    /// The control flow for the loop.
    pub control: LoopControl,
    /// Whether to release the application (run its clean-up) now.
    pub release_application: bool,
}

/// Handles one event of the main loop: the loop waits for the next event,
/// leaves when the window is asked to close, and when the loop itself is
/// torn down the application is released.
pub fn handle_event(event: LoopEvent) -> (r: LoopResponse)
    ensures
        r.control == (if event == LoopEvent::CloseRequested {
            LoopControl::Exit
        } else {
            LoopControl::Wait
        }),
        r.release_application == (event == LoopEvent::LoopDestroyed),
{
    let mut response = LoopResponse { control: LoopControl::Wait, release_application: false };
    match event {
        LoopEvent::LoopDestroyed => {
            response.release_application = true;
        },
        LoopEvent::CloseRequested => {
            response.control = LoopControl::Exit;
        },
        LoopEvent::OtherWindowEvent => {},
        LoopEvent::RedrawRequested => {},
        LoopEvent::Other => {},
    }
    response
}

/// The Vulkan objects that exist when the application is cleaned up.
#[derive(Clone, Copy, Debug, PartialEq, Eq, Structural)]
pub struct LiveObjects {
    pub has_debug_messenger: bool,
    pub has_debug_utils_loader: bool,
    pub has_instance: bool,
    pub image_view_count: usize,
    pub has_swap_chain_loader: bool,
    pub has_surface: bool,
    pub has_device: bool,
}

/// One destruction during clean-up.
#[derive(Clone, Copy, Debug, PartialEq, Eq, Structural)]
pub enum CleanupStep {
    DestroyDebugMessenger,
    /// Destroy the swap chain image view at this position.
    DestroyImageView(usize),
    DestroySwapchain,
    DestroySurface,
    DestroyDevice,
    DestroyInstance,
}

/// The image views destroyed in order: positions `0..n`.
pub open spec fn image_view_steps(n: nat) -> Seq<CleanupStep>
    decreases n,
{
    if n == 0 {
        seq![]
    } else {
        image_view_steps((n - 1) as nat).push(CleanupStep::DestroyImageView((n - 1) as usize))
    }
}

/// The clean-up order: the debug messenger if there is one, then, if an
/// instance exists, every image view, the swap chain, the surface if any,
/// the device if any, and last the instance.
pub open spec fn cleanup_order(live: LiveObjects) -> Seq<CleanupStep> {
    (if live.has_debug_messenger {
        seq![CleanupStep::DestroyDebugMessenger]
    } else {
        seq![]
    }) + if live.has_instance {
        image_view_steps(live.image_view_count as nat) + seq![CleanupStep::DestroySwapchain] + (
        if live.has_surface {
            seq![CleanupStep::DestroySurface]
        } else {
            seq![]
        }) + (if live.has_device {
            seq![CleanupStep::DestroyDevice]
        } else {
            seq![]
        }) + seq![CleanupStep::DestroyInstance]
    } else {
        seq![]
    }
}

/// The objects whose destruction goes through a loader or a device have it:
/// the debug messenger through the debug utils loader, the swap chain
/// through its loader, the image views through the device.
pub open spec fn cleanup_possible(live: LiveObjects) -> bool {
    &&& live.has_debug_messenger ==> live.has_debug_utils_loader
    &&& live.has_instance ==> live.has_swap_chain_loader
    &&& live.has_instance && live.image_view_count > 0 ==> live.has_device
}

/// The destructions to perform when the application is cleaned up, in
/// order.
pub fn cleanup_steps(live: &LiveObjects) -> (r: Vec<CleanupStep>)
    requires
        cleanup_possible(*live),
    ensures
        r@ == cleanup_order(*live),
        r@.contains(CleanupStep::DestroyDebugMessenger) <==> live.has_debug_messenger,
        r@.contains(CleanupStep::DestroySwapchain) <==> live.has_instance,
        r@.contains(CleanupStep::DestroyInstance) <==> live.has_instance,
        r@.contains(CleanupStep::DestroySurface) <==> live.has_instance && live.has_surface,
        r@.contains(CleanupStep::DestroyDevice) <==> live.has_instance && live.has_device,
        forall|i: usize|
            #[trigger] r@.contains(CleanupStep::DestroyImageView(i)) <==> live.has_instance && i
                < live.image_view_count,
        r@.no_duplicates(),
        live.has_instance ==> r@.last() == CleanupStep::DestroyInstance,
{
    let mut steps: Vec<CleanupStep> = Vec::new();
    if live.has_debug_messenger {
        steps.push(CleanupStep::DestroyDebugMessenger);
    }
    let ghost first = steps@;
    if live.has_instance {
        let mut i: usize = 0;
        while i < live.image_view_count
            invariant
                i <= live.image_view_count,
                steps@ == first + image_view_steps(i as nat),
            decreases live.image_view_count - i,
        {
            steps.push(CleanupStep::DestroyImageView(i));
            i = i + 1;
            assert(steps@ =~= first + image_view_steps(i as nat));
        }
        steps.push(CleanupStep::DestroySwapchain);
        if live.has_surface {
            steps.push(CleanupStep::DestroySurface);
        }
        if live.has_device {
            steps.push(CleanupStep::DestroyDevice);
        }
        steps.push(CleanupStep::DestroyInstance);
    }
    assert(steps@ =~= cleanup_order(*live));
    proof {
        lemma_cleanup_destroys_what_exists(*live);
        lemma_cleanup_order(*live);
    }
    steps
}

proof fn lemma_image_view_steps(n: nat)
    requires
        n <= usize::MAX + 1,
    ensures
        image_view_steps(n).len() == n,
        forall|i: int| 0 <= i < n ==> #[trigger] image_view_steps(n)[i] == CleanupStep::DestroyImageView(
            i as usize,
        ),
    decreases n,
{
    if n > 0 {
        lemma_image_view_steps((n - 1) as nat);
    }
}

/// A position for each step in the fixed destruction order.
spec fn step_rank(step: CleanupStep) -> int {
    match step {
        CleanupStep::DestroyDebugMessenger => 0,
        CleanupStep::DestroyImageView(i) => 1 + i,
        CleanupStep::DestroySwapchain => usize::MAX + 2,
        CleanupStep::DestroySurface => usize::MAX + 3,
        CleanupStep::DestroyDevice => usize::MAX + 4,
        CleanupStep::DestroyInstance => usize::MAX + 5,
    }
}

/// The steps come in strictly increasing rank, with ranks in `[lo, hi)`.
spec fn ranked(s: Seq<CleanupStep>, lo: int, hi: int) -> bool {
    &&& forall|j: int, k: int|
        0 <= j < k < s.len() ==> step_rank(#[trigger] s[j]) < step_rank(#[trigger] s[k])
    &&& forall|j: int| 0 <= j < s.len() ==> lo <= step_rank(#[trigger] s[j]) < hi
}

proof fn lemma_ranked_concat(a: Seq<CleanupStep>, b: Seq<CleanupStep>, lo: int, mid: int, hi: int)
    requires
        lo <= mid <= hi,
        ranked(a, lo, mid),
        ranked(b, mid, hi),
    ensures
        ranked(a + b, lo, hi),
{
    let c = a + b;
    assert forall|j: int, k: int| 0 <= j < k < c.len() implies step_rank(#[trigger] c[j]) < step_rank(
        #[trigger] c[k],
    ) by {
        if k < a.len() {
            assert(c[j] == a[j] && c[k] == a[k]);
        } else if j >= a.len() {
            assert(c[j] == b[j - a.len()] && c[k] == b[k - a.len()]);
        } else {
            assert(c[j] == a[j] && c[k] == b[k - a.len()]);
        }
    }
    assert forall|j: int| 0 <= j < c.len() implies lo <= step_rank(#[trigger] c[j]) < hi by {
        if j < a.len() {
            assert(c[j] == a[j]);
        } else {
            assert(c[j] == b[j - a.len()]);
        }
    }
}

proof fn lemma_ranked_single(step: CleanupStep, lo: int, hi: int)
    requires
        lo <= step_rank(step) < hi,
    ensures
        ranked(seq![step], lo, hi),
{
}

proof fn lemma_ranked_empty(lo: int, hi: int)
    ensures
        ranked(Seq::<CleanupStep>::empty(), lo, hi),
{
}

proof fn lemma_image_views_ranked(n: nat)
    requires
        n <= usize::MAX + 1,
    ensures
        ranked(image_view_steps(n), 1, usize::MAX + 2),
{
    lemma_image_view_steps(n);
}

/// In a ranked sequence, a step of lower rank comes earlier, and no step
/// occurs twice.
proof fn lemma_ranked_positions(s: Seq<CleanupStep>, lo: int, hi: int)
    requires
        ranked(s, lo, hi),
    ensures
        forall|j: int, k: int|
            0 <= j < s.len() && 0 <= k < s.len() && step_rank(#[trigger] s[j]) < step_rank(
                #[trigger] s[k],
            ) ==> j < k,
        s.no_duplicates(),
{
    assert forall|j: int, k: int|
        0 <= j < s.len() && 0 <= k < s.len() && step_rank(#[trigger] s[j]) < step_rank(
            #[trigger] s[k],
        ) implies j < k by {
        if k < j {
            assert(step_rank(s[k]) < step_rank(s[j]));
        }
    }
    assert forall|j: int, k: int| 0 <= j < s.len() && 0 <= k < s.len() && j != k implies s[j]
        != s[k] by {
        if j < k {
            assert(step_rank(s[j]) < step_rank(s[k]));
        } else {
            assert(step_rank(s[k]) < step_rank(s[j]));
        }
    }
}

/// The clean-up order is ranked, starting above the debug messenger's rank
/// when there is no messenger; with an instance it ends with the instance
/// and holds every image view, without one it is at most the messenger.
proof fn lemma_cleanup_ranked(live: LiveObjects)
    ensures
        ranked(cleanup_order(live), if live.has_debug_messenger { 0 } else { 1 }, usize::MAX + 6),
        live.has_debug_messenger ==> cleanup_order(live).len() > 0 && cleanup_order(live)[0]
            == CleanupStep::DestroyDebugMessenger,
        live.has_instance ==> cleanup_order(live).len() > 0 && cleanup_order(live).last()
            == CleanupStep::DestroyInstance,
        live.has_instance ==> forall|i: int|
            0 <= i < live.image_view_count ==> #[trigger] cleanup_order(live).contains(
                CleanupStep::DestroyImageView(i as usize),
            ),
        !live.has_instance ==> cleanup_order(live).len() <= 1,
{
    let order = cleanup_order(live);
    let n = live.image_view_count as nat;
    let top = usize::MAX + 6;
    let head: Seq<CleanupStep> = if live.has_debug_messenger {
        seq![CleanupStep::DestroyDebugMessenger]
    } else {
        seq![]
    };
    let lo: int = if live.has_debug_messenger { 0 } else { 1 };
    lemma_ranked_empty(1, 1);
    lemma_ranked_single(CleanupStep::DestroyDebugMessenger, 0, 1);
    assert(ranked(head, lo, 1));
    if live.has_instance {
        let views = image_view_steps(n);
        lemma_image_views_ranked(n);
        lemma_image_view_steps(n);
        let surface: Seq<CleanupStep> = if live.has_surface {
            seq![CleanupStep::DestroySurface]
        } else {
            seq![]
        };
        let device: Seq<CleanupStep> = if live.has_device {
            seq![CleanupStep::DestroyDevice]
        } else {
            seq![]
        };
        let swap = seq![CleanupStep::DestroySwapchain];
        let last = seq![CleanupStep::DestroyInstance];
        lemma_ranked_single(CleanupStep::DestroySwapchain, usize::MAX + 2, usize::MAX + 3);
        lemma_ranked_empty(usize::MAX + 3, usize::MAX + 4);
        lemma_ranked_single(CleanupStep::DestroySurface, usize::MAX + 3, usize::MAX + 4);
        lemma_ranked_empty(usize::MAX + 4, usize::MAX + 5);
        lemma_ranked_single(CleanupStep::DestroyDevice, usize::MAX + 4, usize::MAX + 5);
        lemma_ranked_single(CleanupStep::DestroyInstance, usize::MAX + 5, top);
        lemma_ranked_concat(head, views, lo, 1, usize::MAX + 2);
        lemma_ranked_concat(head + views, swap, lo, usize::MAX + 2, usize::MAX + 3);
        lemma_ranked_concat(head + views + swap, surface, lo, usize::MAX + 3, usize::MAX + 4);
        lemma_ranked_concat(head + views + swap + surface, device, lo, usize::MAX + 4, usize::MAX + 5);
        lemma_ranked_concat(head + views + swap + surface + device, last, lo, usize::MAX + 5, top);
        assert(order =~= head + views + swap + surface + device + last);
        assert forall|i: int| 0 <= i < live.image_view_count implies #[trigger] order.contains(
            CleanupStep::DestroyImageView(i as usize),
        ) by {
            assert(order[head.len() + i] == views[i]);
        }
    } else {
        assert(order =~= head);
    }
}

proof fn lemma_contains_concat(a: Seq<CleanupStep>, b: Seq<CleanupStep>, x: CleanupStep)
    ensures
        (a + b).contains(x) <==> a.contains(x) || b.contains(x),
{
    if (a + b).contains(x) {
        let k = choose|k: int| 0 <= k < (a + b).len() && (a + b)[k] == x;
        if k < a.len() {
            assert(a[k] == x);
        } else {
            assert(b[k - a.len()] == x);
        }
    }
    if a.contains(x) {
        let k = choose|k: int| 0 <= k < a.len() && a[k] == x;
        assert((a + b)[k] == x);
    }
    if b.contains(x) {
        let k = choose|k: int| 0 <= k < b.len() && b[k] == x;
        assert((a + b)[a.len() + k] == x);
    }
}

proof fn lemma_image_view_steps_contain(n: nat, x: CleanupStep)
    requires
        n <= usize::MAX + 1,
    ensures
        image_view_steps(n).contains(x) <==> (x matches CleanupStep::DestroyImageView(i) && i < n),
{
    lemma_image_view_steps(n);
    if let CleanupStep::DestroyImageView(i) = x {
        if i < n {
            assert(image_view_steps(n)[i as int] == x);
        }
    }
}

/// What the clean-up destroys: the debug messenger exactly when it exists;
/// with an instance, the swap chain, the instance, every image view, the
/// surface exactly when it exists and the device exactly when it exists;
/// without an instance, nothing else.
pub proof fn lemma_cleanup_destroys_what_exists(live: LiveObjects)
    ensures
        cleanup_order(live).contains(CleanupStep::DestroyDebugMessenger)
            <==> live.has_debug_messenger,
        cleanup_order(live).contains(CleanupStep::DestroySwapchain) <==> live.has_instance,
        cleanup_order(live).contains(CleanupStep::DestroyInstance) <==> live.has_instance,
        cleanup_order(live).contains(CleanupStep::DestroySurface) <==> live.has_instance
            && live.has_surface,
        cleanup_order(live).contains(CleanupStep::DestroyDevice) <==> live.has_instance
            && live.has_device,
        forall|i: usize|
            #[trigger] cleanup_order(live).contains(CleanupStep::DestroyImageView(i))
                <==> live.has_instance && i < live.image_view_count,
{
    let n = live.image_view_count as nat;
    let head: Seq<CleanupStep> = if live.has_debug_messenger {
        seq![CleanupStep::DestroyDebugMessenger]
    } else {
        seq![]
    };
    let views = image_view_steps(n);
    let surface: Seq<CleanupStep> = if live.has_surface {
        seq![CleanupStep::DestroySurface]
    } else {
        seq![]
    };
    let device: Seq<CleanupStep> = if live.has_device {
        seq![CleanupStep::DestroyDevice]
    } else {
        seq![]
    };
    let swap = seq![CleanupStep::DestroySwapchain];
    let last = seq![CleanupStep::DestroyInstance];
    let rest = views + swap + surface + device + last;
    assert forall|x: CleanupStep| #![trigger cleanup_order(live).contains(x)]
        cleanup_order(live).contains(x) <==> head.contains(x) || (live.has_instance && (
        views.contains(x) || swap.contains(x) || surface.contains(x) || device.contains(x)
            || last.contains(x))) by {
        lemma_contains_concat(views, swap, x);
        lemma_contains_concat(views + swap, surface, x);
        lemma_contains_concat(views + swap + surface, device, x);
        lemma_contains_concat(views + swap + surface + device, last, x);
        if live.has_instance {
            assert(cleanup_order(live) == head + rest);
            lemma_contains_concat(head, rest, x);
        } else {
            assert(cleanup_order(live) =~= head);
        }
    }
    assert forall|x: CleanupStep| head.contains(x) <==> live.has_debug_messenger && x
        == CleanupStep::DestroyDebugMessenger by {
        if head.contains(x) {
            let k = choose|k: int| 0 <= k < head.len() && head[k] == x;
        }
        if live.has_debug_messenger && x == CleanupStep::DestroyDebugMessenger {
            assert(head[0] == x);
        }
    }
    assert forall|x: CleanupStep, y: CleanupStep| seq![y].contains(x) <==> x == y by {
        if x == y {
            assert(seq![y][0] == x);
        }
    }
    assert forall|x: CleanupStep| surface.contains(x) <==> live.has_surface && x
        == CleanupStep::DestroySurface by {
        if live.has_surface {
            assert(surface == seq![CleanupStep::DestroySurface]);
        } else {
            assert(surface.len() == 0);
        }
    }
    assert forall|x: CleanupStep| device.contains(x) <==> live.has_device && x
        == CleanupStep::DestroyDevice by {
        if live.has_device {
            assert(device == seq![CleanupStep::DestroyDevice]);
        } else {
            assert(device.len() == 0);
        }
    }
    assert forall|x: CleanupStep| views.contains(x) <==> (x matches CleanupStep::DestroyImageView(
        i,
    ) && i < n) by {
        lemma_image_view_steps_contain(n, x);
    }
    assert(cleanup_order(live).contains(CleanupStep::DestroyDebugMessenger)
        <==> live.has_debug_messenger);
    assert(cleanup_order(live).contains(CleanupStep::DestroySwapchain) <==> live.has_instance);
    assert(cleanup_order(live).contains(CleanupStep::DestroyInstance) <==> live.has_instance);
    assert(cleanup_order(live).contains(CleanupStep::DestroySurface) <==> live.has_instance
        && live.has_surface);
    assert(cleanup_order(live).contains(CleanupStep::DestroyDevice) <==> live.has_instance
        && live.has_device);
    assert forall|i: usize|
        #[trigger] cleanup_order(live).contains(CleanupStep::DestroyImageView(i))
            <==> live.has_instance && i < live.image_view_count by {
        assert(views.contains(CleanupStep::DestroyImageView(i)) <==> i < n);
    }
}

/// The clean-up destroys nothing twice and keeps the fixed destruction
/// order: debug messenger, image views by position, swap chain, surface,
/// device, instance. Every object made from the device goes before the
/// device, and everything goes before the instance, which is destroyed
/// last; the debug messenger is destroyed whenever it exists, and when an
/// instance exists every image view is destroyed; without an instance at
/// most the debug messenger is destroyed.
pub proof fn lemma_cleanup_order(live: LiveObjects)
    ensures
        cleanup_order(live).no_duplicates(),
        live.has_instance ==> cleanup_order(live).last() == CleanupStep::DestroyInstance,
        live.has_instance ==> forall|i: int|
            0 <= i < live.image_view_count ==> #[trigger] cleanup_order(live).contains(
                CleanupStep::DestroyImageView(i as usize),
            ),
        forall|j: int, k: int|
            0 <= j < cleanup_order(live).len() && 0 <= k < cleanup_order(live).len()
                && cleanup_order(live)[j] is DestroyImageView && cleanup_order(live)[k]
                == CleanupStep::DestroySwapchain ==> j < k,
        forall|j: int, k: int|
            0 <= j < cleanup_order(live).len() && 0 <= k < cleanup_order(live).len()
                && cleanup_order(live)[j] == CleanupStep::DestroyDevice && cleanup_order(live)[k]
                == CleanupStep::DestroyInstance ==> j < k,
        forall|j: int, k: int|
            0 <= j < cleanup_order(live).len() && 0 <= k < cleanup_order(live).len() && (
            cleanup_order(live)[j] == CleanupStep::DestroyDebugMessenger || cleanup_order(live)[j] is DestroyImageView
                || cleanup_order(live)[j] == CleanupStep::DestroySwapchain) && cleanup_order(live)[k]
                == CleanupStep::DestroyDevice ==> j < k,
        forall|j: int, k: int|
            #![trigger cleanup_order(live)[j], cleanup_order(live)[k]]
            0 <= j < cleanup_order(live).len() && 0 <= k < cleanup_order(live).len() && j != k
                && cleanup_order(live)[k] == CleanupStep::DestroyInstance ==> j < k,
        cleanup_order(live).contains(CleanupStep::DestroyDebugMessenger)
            <==> live.has_debug_messenger,
        !live.has_instance ==> cleanup_order(live).len() <= 1,
{
    let order = cleanup_order(live);
    let lo: int = if live.has_debug_messenger { 0 } else { 1 };
    lemma_cleanup_ranked(live);
    lemma_ranked_positions(order, lo, usize::MAX + 6);
    if !live.has_debug_messenger {
        assert forall|j: int| 0 <= j < order.len() implies order[j]
            != CleanupStep::DestroyDebugMessenger by {
            assert(step_rank(order[j]) >= 1);
        }
    }
}

} // verus!
