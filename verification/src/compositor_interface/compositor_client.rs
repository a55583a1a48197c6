//! The state of the overlay layers that the compositor client keeps on each
//! screen, and the decisions it takes on the compositor's events. The client
//! itself (the Wayland objects) performs what these decisions ask for.
use vstd::prelude::*;
use crate::compositor_interface::{
    CursorFetchErr, CursorFetchErrCtx, Point, ScreenInfo, Size, screen_origins,
};
use crate::layout::{is_stable_origin_order, order_view, origin_order};

verus! {

/// The state of the shell layers.
#[derive(Debug, PartialEq, Eq, Structural, Clone, Copy)]
pub enum LayersState {
    /// There are no layers yet.
    Empty,
    /// Initialization has been committed and is waiting for configure event.
    AwaitingConf,
    /// Configuration has been committed and is waiting for sync update.
    AwaitingSync,
    /// Wayland has finished configuring the layers and replied with a Done event.
    Ready,
}

/// Answer from different modules of the client.
#[derive(Debug, PartialEq, Eq, Structural, Clone, Copy)]
pub enum Answer {
    AbsCursorPos(Point),
}

/// What the client knows of one overlay layer.
#[derive(Debug, PartialEq, Eq, Structural, Clone, Copy)]
pub struct LayerSlot {
    /// The screen that the layer covers.
    pub screen_info: ScreenInfo,
    /// The layer has not received its first configure event yet.
    pub first_configure: bool,
}

/// What a configure event asks the client to do.
#[derive(Debug, PartialEq, Eq, Structural, Clone, Copy)]
pub struct ConfigureOutcome {
    /// Draw the layer again at its new size.
    pub draw: bool,
    /// Every layer is configured now: ask the compositor for a sync callback.
    pub request_sync: bool,
}

/// The layer state of the compositor client.
#[derive(Debug)]
pub struct LayerTracker {
    layers: Vec<LayerSlot>,
    layers_state: LayersState,
    answer: Option<Answer>,
}

/// A dimension of a configure event: zero means that the client chooses, and
/// it chooses 256.
pub open spec fn configured_dim(d: u32) -> u32 {
    if d == 0 {
        256
    } else {
        d
    }
}

/// The layer slots' origins.
pub open spec fn slot_screens(layers: Seq<LayerSlot>) -> Seq<ScreenInfo> {
    layers.map_values(|l: LayerSlot| l.screen_info)
}

impl LayerTracker {
    /// The layers, in the order the client keeps them.
    pub closed spec fn layers(&self) -> Seq<LayerSlot> {
        self.layers@
    }

    /// The state of the layers.
    pub closed spec fn state(&self) -> LayersState {
        self.layers_state
    }

    /// The pending answer.
    pub closed spec fn answer(&self) -> Option<Answer> {
        self.answer
    }

    /// No layers yet.
    pub fn new() -> (t: LayerTracker)
        ensures
            t.layers() == Seq::<LayerSlot>::empty(),
            t.state() == LayersState::Empty,
            t.answer() == None::<Answer>,
    {
        LayerTracker { layers: Vec::new(), layers_state: LayersState::Empty, answer: None }
    }

    /// The state of the layers.
    pub fn layers_state(&self) -> (s: LayersState)
        ensures
            s == self.state(),
    {
        self.layers_state
    }

    /// Starts (re)building the layers: clears the old ones.
    pub fn begin_layers(&mut self)
        ensures
            final(self).layers() == Seq::<LayerSlot>::empty(),
            final(self).state() == LayersState::Empty,
            final(self).answer() == old(self).answer(),
    {
        // Clear old layers.
        self.layers_state = LayersState::Empty;
        self.layers = Vec::new();
    }

    /// Adds the layer of one screen, not configured yet.
    pub fn push_layer(&mut self, screen_info: ScreenInfo)
        ensures
            final(self).layers() == old(self).layers().push(
                LayerSlot { screen_info, first_configure: true },
            ),
            final(self).state() == old(self).state(),
            final(self).answer() == old(self).answer(),
    {
        self.layers.push(LayerSlot { screen_info, first_configure: true });
    }

    /// Every layer is created: the layers wait for their configuration, sorted
    /// by their screen's origin, top to bottom then left to right. Answers the
    /// new order, as indices into the order in which the layers were pushed.
    pub fn finish_layers(&mut self) -> (order: Vec<usize>)
        ensures
            final(self).state() == LayersState::AwaitingConf,
            final(self).answer() == old(self).answer(),
            is_stable_origin_order(
                screen_origins(slot_screens(old(self).layers())),
                order_view(order@),
                old(self).layers().len() as int,
            ),
            final(self).layers() == order_view(order@).map_values(|i: int| old(self).layers()[i]),
    {
        self.layers_state = LayersState::AwaitingConf;
        let mut origins: Vec<(i32, i32)> = Vec::new();
        let mut i: usize = 0;
        while i < self.layers.len()
            invariant
                i <= self.layers@.len(),
                self.layers@ == old(self).layers@,
                origins@ == screen_origins(slot_screens(self.layers@.subrange(0, i as int))),
            decreases self.layers@.len() - i,
        {
            let o = self.layers[i].screen_info.origin;
            origins.push((o.x, o.y));
            proof {
                assert(screen_origins(slot_screens(self.layers@.subrange(0, i + 1))) =~= origins@);
            }
            i += 1;
        }
        assert(self.layers@.subrange(0, self.layers@.len() as int) =~= self.layers@);
        // Sorts outputs by their y position followed by their x position.
        let order = origin_order(&origins);
        let mut sorted: Vec<LayerSlot> = Vec::new();
        let mut k: usize = 0;
        while k < order.len()
            invariant
                k <= order@.len(),
                self.layers@ == old(self).layers@,
                is_stable_origin_order(origins@, order_view(order@), self.layers@.len() as int),
                sorted@ == order_view(order@).subrange(0, k as int).map_values(
                    |j: int| self.layers@[j],
                ),
            decreases order@.len() - k,
        {
            assert(order_view(order@)[k as int] == order@[k as int] as int);
            sorted.push(self.layers[order[k]]);
            proof {
                assert(order_view(order@).subrange(0, k + 1) =~= order_view(order@).subrange(
                    0,
                    k as int,
                ).push(order@[k as int] as int));
                assert(sorted@ =~= order_view(order@).subrange(0, k + 1).map_values(
                    |j: int| self.layers@[j],
                ));
            }
            k += 1;
        }
        assert(order_view(order@).subrange(0, order@.len() as int) =~= order_view(order@));
        self.layers = sorted;
        order
    }

    /// Get the screen info of the compositor: the screen of each layer.
    pub fn screen_info(&self) -> (screen_info: Vec<ScreenInfo>)
        ensures
            screen_info@ == slot_screens(self.layers()),
    {
        let mut screen_info: Vec<ScreenInfo> = Vec::new();
        let mut i: usize = 0;
        while i < self.layers.len()
            invariant
                i <= self.layers@.len(),
                screen_info@ == slot_screens(self.layers@.subrange(0, i as int)),
            decreases self.layers@.len() - i,
        {
            screen_info.push(self.layers[i].screen_info);
            proof {
                assert(slot_screens(self.layers@.subrange(0, i + 1)) =~= screen_info@);
            }
            i += 1;
        }
        assert(self.layers@.subrange(0, self.layers@.len() as int) =~= self.layers@);
        screen_info
    }

    /// The compositor configured layer `index` with `new_size`. The first
    /// configure of a layer always draws it; a later one draws it when its size
    /// changed. When the last unconfigured layer gets its first configure, the
    /// layers await the compositor's sync.
    pub fn configure(&mut self, index: usize, new_size: (u32, u32)) -> (outcome: ConfigureOutcome)
        requires
            index < old(self).layers().len(),
        ensures
            ({
                let old_slot = old(self).layers()[index as int];
                let w = configured_dim(new_size.0);
                let h = configured_dim(new_size.1);
                let resized = LayerSlot {
                    screen_info: ScreenInfo {
                        size: Size { width: w, height: h },
                        origin: old_slot.screen_info.origin,
                    },
                    first_configure: false,
                };
                let dim_changed = old_slot.screen_info.size.width != w
                    || old_slot.screen_info.size.height != h;
                if old_slot.first_configure {
                    let layers = old(self).layers().update(index as int, resized);
                    let all_done = forall|j: int| 0 <= j < layers.len() ==> !(#[trigger] layers[j]).first_configure;
                    &&& final(self).layers() == layers
                    &&& outcome == (ConfigureOutcome { draw: true, request_sync: all_done })
                    &&& final(self).state() == (if all_done { LayersState::AwaitingSync } else { old(self).state() })
                } else if dim_changed {
                    &&& final(self).layers() == old(self).layers().update(
                        index as int,
                        resized,
                    )
                    &&& outcome == (ConfigureOutcome { draw: true, request_sync: false })
                    &&& final(self).state() == old(self).state()
                } else {
                    &&& final(self).layers() == old(self).layers()
                    &&& outcome == (ConfigureOutcome { draw: false, request_sync: false })
                    &&& final(self).state() == old(self).state()
                }
            }),
            final(self).answer() == old(self).answer(),
    {
        let slot = self.layers[index];
        let new_width = if new_size.0 == 0 { 256 } else { new_size.0 };
        let new_height = if new_size.1 == 0 { 256 } else { new_size.1 };
        let dim_changed = (slot.screen_info.size.width != new_width) || (
        slot.screen_info.size.height != new_height);
        let resized = LayerSlot {
            screen_info: ScreenInfo {
                size: Size { width: new_width, height: new_height },
                origin: slot.screen_info.origin,
            },
            first_configure: false,
        };
        // Initiate the draw only when dimensions changed or if it has never been configured.
        if slot.first_configure {
            self.layers.set(index, resized);
            let mut all_done = true;
            let mut j: usize = 0;
            while j < self.layers.len()
                invariant
                    j <= self.layers@.len(),
                    all_done == forall|k: int| 0 <= k < j ==> !(#[trigger] self.layers@[k]).first_configure,
                decreases self.layers@.len() - j,
            {
                if self.layers[j].first_configure {
                    all_done = false;
                }
                j += 1;
            }
            if all_done {
                self.layers_state = LayersState::AwaitingSync;
            }
            ConfigureOutcome { draw: true, request_sync: all_done }
        } else if dim_changed {
            self.layers.set(index, resized);
            ConfigureOutcome { draw: true, request_sync: false }
        } else {
            ConfigureOutcome { draw: false, request_sync: false }
        }
    }

    /// The pointer entered layer `index` at `position` on its surface: the
    /// absolute cursor position is the layer's screen origin plus that
    /// position. The client then deactivates the layers.
    pub fn pointer_enter(&mut self, index: usize, position: (i32, i32))
        requires
            index < old(self).layers().len(),
            i32::MIN <= position.0 + old(self).layers()[index as int].screen_info.origin.x <= i32::MAX,
            i32::MIN <= position.1 + old(self).layers()[index as int].screen_info.origin.y <= i32::MAX,
        ensures
            final(self).layers() == old(self).layers(),
            final(self).state() == old(self).state(),
            final(self).answer() == Some(
                Answer::AbsCursorPos(
                    Point {
                        x: (position.0 + old(self).layers()[index as int].screen_info.origin.x) as i32,
                        y: (position.1 + old(self).layers()[index as int].screen_info.origin.y) as i32,
                    },
                ),
            ),
    {
        let o = self.layers[index].screen_info.origin;
        let pos = Point { x: position.0 + o.x, y: position.1 + o.y };
        self.answer = Some(Answer::AbsCursorPos(pos));
    }

    /// The compositor's sync after a cursor fetch: the pending position is the
    /// answer, and is consumed. Without one the capture failed; the client then
    /// deactivates the layers itself (the second value), and the error says
    /// whether the layers were not ready.
    pub fn abs_cursor_sync_done(&mut self) -> (res: (Result<Point, CursorFetchErr>, bool))
        ensures
            final(self).layers() == old(self).layers(),
            final(self).state() == old(self).state(),
            final(self).answer() == None::<Answer>,
            match old(self).answer() {
                Some(Answer::AbsCursorPos(p)) => res.0 == Ok::<Point, CursorFetchErr>(p) && !res.1,
                None => res.1 && res.0 is Err && res.0->Err_0.context() == (if old(self).state()
                    != LayersState::Ready {
                    seq![CursorFetchErrCtx::LayerNotReady]
                } else {
                    Seq::empty()
                }),
            },
    {
        match self.answer.take() {
            Some(Answer::AbsCursorPos(point)) => (Ok(point), false),
            None => {
                let mut ctx: Vec<CursorFetchErrCtx> = Vec::new();
                if self.layers_state != LayersState::Ready {
                    ctx.push(CursorFetchErrCtx::LayerNotReady);
                }
                assert(ctx@ =~= (if old(self).state() != LayersState::Ready {
                    seq![CursorFetchErrCtx::LayerNotReady]
                } else {
                    Seq::empty()
                }));
                (Err(CursorFetchErr::new(ctx)), true)
            },
        }
    }

    /// The compositor's sync after every layer was configured: the layers are ready.
    pub fn layers_configured_sync_done(&mut self)
        ensures
            final(self).layers() == old(self).layers(),
            final(self).state() == LayersState::Ready,
            final(self).answer() == old(self).answer(),
    {
        self.layers_state = LayersState::Ready;
    }
}

} // verus!
