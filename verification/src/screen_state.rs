//! The display state and its differ.
//!
//! `ScreenState` aggregates every display field, plus derived fields that
//! are not diffed directly (current page, run-state, homed axes, the macro
//! list and its scroll offset). One copy holds the current values; a shadow
//! copy holds what was last sent to the panel. Each update tick the differ
//! compares the two and emits exactly the write frames needed to reconcile
//! them, pushing the shadow copy forward as it goes. The clock field is
//! re-sent every tick as a link heartbeat, whether or not it changed.

use vstd::prelude::*;

verus! {

use crate::frames::{construct_change_page, construct_i16, construct_write_buf, i16_be_bytes,
    page_frame_spec, write_frame_spec};
use crate::moonraker::{HomedAxis, PrinterState};
use crate::utils::{dec2_u64, left_pad, left_pad_spec, lemma_dec_len, pad_seq, push_dec2_u64,
    push_dec_u64, push_repeat, dec_u64};
use crate::{append_frames, byte_lists_eq, bytes_eq, copy_byte_lists, copy_bytes, push_frame};

/// The addressable display fields and the derived state around them.
#[derive(Debug, Clone)]
pub struct ScreenState {
    pub current_page: u8,
    pub printer_state: PrinterState,
    pub homed_axes: HomedAxis,
    /// The names of the printer's macros, in the daemon's order.
    pub macros: Vec<Vec<u8>>,
    /// Index of the macro shown on the first visible row.
    pub macros_scroll: usize,
    /// Clock text, `HH:MM`, register 0x2000.
    pub time: Vec<u8>,
    /// Estimated-time-remaining text as last rendered, register 0x2005.
    pub estimated_time: Vec<u8>,
    /// Total estimated print seconds from the file's metadata; -1 when
    /// unknown.
    pub file_estimated_time: i32,
    /// Model name text, centered, register 0x2015.
    pub model_name: Vec<u8>,
    /// Nozzle temperature, register 0x2025.
    pub nozzle_temp: i16,
    /// Nozzle target temperature, register 0x2026.
    pub target_nozzle_temp: i16,
    /// Bed temperature, register 0x2027.
    pub bed_temp: i16,
    /// Bed target temperature, register 0x2028.
    pub target_bed_temp: i16,
    /// Print progress percent, 0 to 100, register 0x2029.
    pub printing_progress: i16,
}

/// The mathematical value of a `ScreenState`.
#[verifier::ext_equal]
pub struct ScreenV {
    pub current_page: u8,
    pub printer_state: PrinterState,
    pub homed_axes: HomedAxis,
    pub macros: Seq<Seq<u8>>,
    pub macros_scroll: int,
    pub time: Seq<u8>,
    pub estimated_time: Seq<u8>,
    pub file_estimated_time: int,
    pub model_name: Seq<u8>,
    pub nozzle_temp: i16,
    pub target_nozzle_temp: i16,
    pub bed_temp: i16,
    pub target_bed_temp: i16,
    pub printing_progress: i16,
}

impl View for ScreenState {
    type V = ScreenV;

    open spec fn view(&self) -> ScreenV {
        ScreenV {
            current_page: self.current_page,
            printer_state: self.printer_state,
            homed_axes: self.homed_axes,
            macros: self.macros.deep_view(),
            macros_scroll: self.macros_scroll as int,
            time: self.time@,
            estimated_time: self.estimated_time@,
            file_estimated_time: self.file_estimated_time as int,
            model_name: self.model_name@,
            nozzle_temp: self.nozzle_temp,
            target_nozzle_temp: self.target_nozzle_temp,
            bed_temp: self.bed_temp,
            target_bed_temp: self.target_bed_temp,
            printing_progress: self.printing_progress,
        }
    }
}

impl ScreenV {
    /// Well-formedness: text fields fit a frame, the progress percent is in
    /// range or the unset sentinel, and the scroll offset never points past
    /// the macro list.
    pub open spec fn wf(self) -> bool {
        &&& self.time.len() <= 200
        &&& self.model_name.len() <= 200
        &&& -1 <= self.printing_progress <= 100
        &&& 0 <= self.macros_scroll <= self.macros.len()
    }
}

/// The display value of the startup state: clock at midnight, blank texts,
/// everything else zero or empty.
pub open spec fn new_screen_spec() -> ScreenV {
    ScreenV {
        current_page: 0,
        printer_state: PrinterState::Standby,
        homed_axes: HomedAxis::NoAxis,
        macros: Seq::empty(),
        macros_scroll: 0,
        time: seq![0x30u8, 0x30u8, 0x3au8, 0x30u8, 0x30u8],
        estimated_time: pad_seq(0x20, 10),
        file_estimated_time: -1,
        model_name: pad_seq(0x20, 20),
        nozzle_temp: 0,
        target_nozzle_temp: 0,
        bed_temp: 0,
        target_bed_temp: 0,
        printing_progress: 0,
    }
}

/// The display value of the sentinel shadow state. Every field differs from
/// a value the startup state or the daemon can produce: -1 for temperatures
/// and progress, -2 for the file estimate, empty texts, a one-entry macro
/// list, a run-state of paused.
pub open spec fn old_screen_spec() -> ScreenV {
    ScreenV {
        current_page: 0,
        printer_state: PrinterState::Paused,
        homed_axes: HomedAxis::XYZ,
        macros: seq![Seq::empty()],
        macros_scroll: 0,
        time: Seq::empty(),
        estimated_time: Seq::empty(),
        file_estimated_time: -2,
        model_name: Seq::empty(),
        nozzle_temp: -1i16,
        target_nozzle_temp: -1i16,
        bed_temp: -1i16,
        target_bed_temp: -1i16,
        printing_progress: -1i16,
    }
}

/// The estimated-time text derived from the file estimate and the progress
/// percent: blank when no estimate is known, else `ETA: HH:MM` of the
/// remaining seconds, with the progress clamped into 0 to 100.
#[verifier::opaque]
pub open spec fn estimate_text_spec(file_est: int, progress: int) -> Seq<u8> {
    if file_est < 0 {
        pad_seq(0x20, 10)
    } else {
        let p = if progress < 0 {
            0
        } else if progress > 100 {
            100
        } else {
            progress
        };
        let eta = file_est - p * file_est / 100;
        let h = eta / 3600;
        let m = (eta % 3600) / 60;
        seq![0x45u8, 0x54u8, 0x41u8, 0x3au8, 0x20u8] + dec2_u64(h as u64) + seq![0x3au8]
            + dec2_u64(m as u64)
    }
}

/// The estimate text of a state's own fields.
pub open spec fn estimate_of(s: ScreenV) -> Seq<u8> {
    estimate_text_spec(s.file_estimated_time, s.printing_progress as int)
}

/// One visible macro row: the macro at `scroll + row`, left-justified in 50
/// bytes, or 50 blanks past the end of the list.
pub open spec fn macro_row_spec(macros: Seq<Seq<u8>>, scroll: int, row: int) -> Seq<u8> {
    let idx = scroll + row;
    if 0 <= idx < macros.len() {
        left_pad_spec(macros[idx], 0x20, 50)
    } else {
        pad_seq(0x20, 50)
    }
}

/// The four frames that render the visible macro rows, top to bottom.
pub open spec fn macro_frames_spec(macros: Seq<Seq<u8>>, scroll: int) -> Seq<Seq<u8>> {
    seq![
        write_frame_spec(0x3000, macro_row_spec(macros, scroll, 0)),
        write_frame_spec(0x3051, macro_row_spec(macros, scroll, 1)),
        write_frame_spec(0x3102, macro_row_spec(macros, scroll, 2)),
        write_frame_spec(0x3153, macro_row_spec(macros, scroll, 3)),
    ]
}

/// The heartbeat: the clock text is sent every tick, changed or not.
pub open spec fn emit_time(s: ScreenV) -> Seq<Seq<u8>> {
    seq![write_frame_spec(0x2000, s.time)]
}

#[verifier::opaque]
pub open spec fn emit_model(s: ScreenV, o: ScreenV) -> Seq<Seq<u8>> {
    if s.model_name != o.model_name {
        seq![write_frame_spec(0x2015, s.model_name)]
    } else {
        Seq::empty()
    }
}

#[verifier::opaque]
pub open spec fn emit_nozzle(s: ScreenV, o: ScreenV) -> Seq<Seq<u8>> {
    if s.nozzle_temp != o.nozzle_temp {
        seq![write_frame_spec(0x2025, i16_be_bytes(s.nozzle_temp))]
    } else {
        Seq::empty()
    }
}

#[verifier::opaque]
pub open spec fn emit_target_nozzle(s: ScreenV, o: ScreenV) -> Seq<Seq<u8>> {
    if s.target_nozzle_temp != o.target_nozzle_temp {
        seq![write_frame_spec(0x2026, i16_be_bytes(s.target_nozzle_temp))]
    } else {
        Seq::empty()
    }
}

#[verifier::opaque]
pub open spec fn emit_bed(s: ScreenV, o: ScreenV) -> Seq<Seq<u8>> {
    if s.bed_temp != o.bed_temp {
        seq![write_frame_spec(0x2027, i16_be_bytes(s.bed_temp))]
    } else {
        Seq::empty()
    }
}

#[verifier::opaque]
pub open spec fn emit_target_bed(s: ScreenV, o: ScreenV) -> Seq<Seq<u8>> {
    if s.target_bed_temp != o.target_bed_temp {
        seq![write_frame_spec(0x2028, i16_be_bytes(s.target_bed_temp))]
    } else {
        Seq::empty()
    }
}

/// True when the inputs of the estimate text moved since the last send.
pub open spec fn eta_inputs_changed(s: ScreenV, o: ScreenV) -> bool {
    s.file_estimated_time != o.file_estimated_time || s.printing_progress != o.printing_progress
}

/// The estimate text is recomputed when its inputs moved, but transmitted
/// only when the rendered text itself differs from the last rendering.
#[verifier::opaque]
pub open spec fn emit_eta(s: ScreenV, o: ScreenV) -> Seq<Seq<u8>> {
    if eta_inputs_changed(s, o) && s.estimated_time != estimate_of(s) {
        seq![write_frame_spec(0x2005, estimate_of(s))]
    } else {
        Seq::empty()
    }
}

#[verifier::opaque]
pub open spec fn emit_progress(s: ScreenV, o: ScreenV) -> Seq<Seq<u8>> {
    if s.printing_progress != o.printing_progress {
        seq![write_frame_spec(0x2029, i16_be_bytes(s.printing_progress))]
    } else {
        Seq::empty()
    }
}

/// The two frames of a run-state transition: the paused indicator, then
/// either the jump to the progress page (entering printing) or a blank
/// estimate text (leaving it).
pub open spec fn state_frames_spec(state: PrinterState) -> Seq<Seq<u8>> {
    seq![
        write_frame_spec(
            0x2030,
            i16_be_bytes(if state == PrinterState::Paused { 1i16 } else { 0i16 }),
        ),
    ] + (if state == PrinterState::Printing {
        seq![page_frame_spec(2)]
    } else {
        seq![write_frame_spec(0x2005, pad_seq(0x20, 10))]
    })
}

/// A run-state transition emits `state_frames_spec`; no transition emits
/// nothing.
#[verifier::opaque]
pub open spec fn emit_state(s: ScreenV, o: ScreenV) -> Seq<Seq<u8>> {
    if s.printer_state != o.printer_state {
        state_frames_spec(s.printer_state)
    } else {
        Seq::empty()
    }
}

/// Builds the frames of a run-state transition into `state`.
fn state_change_frames(state: PrinterState) -> (fr: Vec<Vec<u8>>)
    ensures
        fr.deep_view() == state_frames_spec(state),
{
    let mut fr: Vec<Vec<u8>> = Vec::new();
    push_frame(&mut fr, construct_i16(
        0x2030,
        if state == PrinterState::Paused {
            1
        } else {
            0
        },
    ));
    if state == PrinterState::Printing {
        push_frame(&mut fr, construct_change_page(2));
    } else {
        let mut blank: Vec<u8> = Vec::new();
        push_repeat(&mut blank, 0x20, 10);
        proof {
            assert(blank@ =~= pad_seq(0x20, 10));
        }
        push_frame(&mut fr, construct_write_buf(0x2005, blank.as_slice()));
    }
    proof {
        assert(fr.deep_view() =~= state_frames_spec(state));
    }
    fr
}

#[verifier::opaque]
pub open spec fn emit_macros(s: ScreenV, o: ScreenV) -> Seq<Seq<u8>> {
    if s.macros != o.macros || s.macros_scroll != o.macros_scroll {
        macro_frames_spec(s.macros, s.macros_scroll)
    } else {
        Seq::empty()
    }
}

/// Every frame one differ pass emits, in send order, for current state `s`
/// against shadow state `o`.
pub open spec fn diff_emits(s: ScreenV, o: ScreenV) -> Seq<Seq<u8>> {
    emit_time(s) + emit_model(s, o) + emit_nozzle(s, o) + emit_target_nozzle(s, o) + emit_bed(s, o)
        + emit_target_bed(s, o) + emit_eta(s, o) + emit_progress(s, o) + emit_state(s, o)
        + emit_macros(s, o)
}

/// The current state after a differ pass: only the cached estimate text can
/// move, to what was just rendered.
pub open spec fn diff_post_self(s: ScreenV, o: ScreenV) -> ScreenV {
    if eta_inputs_changed(s, o) && s.estimated_time != estimate_of(s) {
        ScreenV { estimated_time: estimate_of(s), ..s }
    } else {
        s
    }
}

/// The shadow state after a differ pass: every compared field now matches
/// the current state; the cached estimate fields move only when an estimate
/// text was actually sent.
pub open spec fn diff_post_old(s: ScreenV, o: ScreenV) -> ScreenV {
    let eta_sent = eta_inputs_changed(s, o) && s.estimated_time != estimate_of(s);
    ScreenV {
        time: s.time,
        model_name: s.model_name,
        nozzle_temp: s.nozzle_temp,
        target_nozzle_temp: s.target_nozzle_temp,
        bed_temp: s.bed_temp,
        target_bed_temp: s.target_bed_temp,
        file_estimated_time: if eta_sent { s.file_estimated_time } else { o.file_estimated_time },
        estimated_time: if eta_sent { estimate_of(s) } else { o.estimated_time },
        printing_progress: s.printing_progress,
        printer_state: s.printer_state,
        macros: s.macros,
        macros_scroll: s.macros_scroll,
        ..o
    }
}

/// Running the differ twice in a row with no intervening state change
/// emits nothing on the second pass beyond the always-resent clock
/// heartbeat: the first pass leaves the shadow copy agreeing with the
/// current state on every compared field.
pub proof fn lemma_diff_idempotent(s: ScreenV, o: ScreenV)
    ensures
        diff_emits(diff_post_self(s, o), diff_post_old(s, o)) == seq![
            write_frame_spec(0x2000, s.time),
        ],
{
    reveal(emit_model);
    reveal(emit_nozzle);
    reveal(emit_target_nozzle);
    reveal(emit_bed);
    reveal(emit_target_bed);
    reveal(emit_eta);
    reveal(emit_progress);
    reveal(emit_state);
    reveal(emit_macros);
    let s2 = diff_post_self(s, o);
    let o2 = diff_post_old(s, o);
    assert(emit_eta(s2, o2) =~= Seq::empty()) by {
        reveal(emit_eta);
        if eta_inputs_changed(s2, o2) {
            assert(s2.estimated_time == estimate_of(s2));
        }
    }
    assert(diff_emits(s2, o2) =~= seq![write_frame_spec(0x2000, s.time)]);
}

/// The first differ pass, run on the startup state against the sentinel
/// shadow state, writes every display register: the sentinels are chosen
/// outside the values the startup state holds (progress and temperatures
/// -1, file estimate -2, a paused run-state, a one-entry macro list), so
/// every comparison fires. The estimate-text register is written through
/// the run-state transition, whose leaving-print branch blanks it.
pub proof fn lemma_first_diff_writes_every_field()
    ensures
        diff_emits(new_screen_spec(), old_screen_spec()) == seq![
            write_frame_spec(0x2000, seq![0x30u8, 0x30u8, 0x3au8, 0x30u8, 0x30u8]),
            write_frame_spec(0x2015, pad_seq(0x20, 20)),
            write_frame_spec(0x2025, i16_be_bytes(0)),
            write_frame_spec(0x2026, i16_be_bytes(0)),
            write_frame_spec(0x2027, i16_be_bytes(0)),
            write_frame_spec(0x2028, i16_be_bytes(0)),
            write_frame_spec(0x2029, i16_be_bytes(0)),
            write_frame_spec(0x2030, i16_be_bytes(0)),
            write_frame_spec(0x2005, pad_seq(0x20, 10)),
            write_frame_spec(0x3000, pad_seq(0x20, 50)),
            write_frame_spec(0x3051, pad_seq(0x20, 50)),
            write_frame_spec(0x3102, pad_seq(0x20, 50)),
            write_frame_spec(0x3153, pad_seq(0x20, 50)),
        ],
{
    reveal(emit_model);
    reveal(emit_nozzle);
    reveal(emit_target_nozzle);
    reveal(emit_bed);
    reveal(emit_target_bed);
    reveal(emit_eta);
    reveal(emit_progress);
    reveal(emit_state);
    reveal(emit_macros);
    reveal(estimate_text_spec);
    let s = new_screen_spec();
    let o = old_screen_spec();
    assert(s.model_name != o.model_name) by {
        assert(s.model_name.len() == 20);
    }
    assert(s.macros != o.macros) by {
        assert(s.macros.len() == 0);
    }
    assert(emit_eta(s, o) =~= Seq::empty()) by {
        reveal(emit_eta);
        reveal(estimate_text_spec);
        assert(estimate_of(s) =~= pad_seq(0x20, 10));
    }
    assert(diff_emits(s, o) =~= seq![
        write_frame_spec(0x2000, seq![0x30u8, 0x30u8, 0x3au8, 0x30u8, 0x30u8]),
        write_frame_spec(0x2015, pad_seq(0x20, 20)),
        write_frame_spec(0x2025, i16_be_bytes(0)),
        write_frame_spec(0x2026, i16_be_bytes(0)),
        write_frame_spec(0x2027, i16_be_bytes(0)),
        write_frame_spec(0x2028, i16_be_bytes(0)),
        write_frame_spec(0x2029, i16_be_bytes(0)),
        write_frame_spec(0x2030, i16_be_bytes(0)),
        write_frame_spec(0x2005, pad_seq(0x20, 10)),
        write_frame_spec(0x3000, pad_seq(0x20, 50)),
        write_frame_spec(0x3051, pad_seq(0x20, 50)),
        write_frame_spec(0x3102, pad_seq(0x20, 50)),
        write_frame_spec(0x3153, pad_seq(0x20, 50)),
    ]);
}

impl ScreenState {
    /// The startup state: clock at midnight, blank estimate and model-name
    /// texts of their field widths, no macros, everything else zero.
    pub fn new() -> (r: ScreenState)
        ensures
            r@ == new_screen_spec(),
            r@.wf(),
    {
        let mut time: Vec<u8> = Vec::new();
        time.push(0x30);
        time.push(0x30);
        time.push(0x3a);
        time.push(0x30);
        time.push(0x30);
        let mut estimated_time: Vec<u8> = Vec::new();
        push_repeat(&mut estimated_time, 0x20, 10);
        let mut model_name: Vec<u8> = Vec::new();
        push_repeat(&mut model_name, 0x20, 20);
        let r = ScreenState {
            current_page: 0,
            printer_state: PrinterState::Standby,
            homed_axes: HomedAxis::NoAxis,
            macros: Vec::new(),
            macros_scroll: 0,
            time,
            estimated_time,
            file_estimated_time: -1,
            model_name,
            nozzle_temp: 0,
            target_nozzle_temp: 0,
            bed_temp: 0,
            target_bed_temp: 0,
            printing_progress: 0,
        };
        proof {
            assert(r@.time =~= new_screen_spec().time);
            assert(r@.estimated_time =~= new_screen_spec().estimated_time);
            assert(r@.model_name =~= new_screen_spec().model_name);
            assert(r@.macros =~= new_screen_spec().macros);
            assert(r@ =~= new_screen_spec());
        }
        r
    }

    /// The sentinel shadow state the first differ pass runs against. Its
    /// values lie outside what the real state can hold, so the first pass
    /// pushes every field to the panel.
    pub fn new_old() -> (r: ScreenState)
        ensures
            r@ == old_screen_spec(),
            r@.wf(),
    {
        let mut macros: Vec<Vec<u8>> = Vec::new();
        macros.push(Vec::new());
        let r = ScreenState {
            current_page: 0,
            printer_state: PrinterState::Paused,
            homed_axes: HomedAxis::XYZ,
            macros,
            macros_scroll: 0,
            time: Vec::new(),
            estimated_time: Vec::new(),
            file_estimated_time: -2,
            model_name: Vec::new(),
            nozzle_temp: -1,
            target_nozzle_temp: -1,
            bed_temp: -1,
            target_bed_temp: -1,
            printing_progress: -1,
        };
        proof {
            assert(r@.macros =~~= old_screen_spec().macros);
            assert(r@.time =~= old_screen_spec().time);
            assert(r@.estimated_time =~= old_screen_spec().estimated_time);
            assert(r@.model_name =~= old_screen_spec().model_name);
            assert(r@ =~~= old_screen_spec());
        }
        r
    }

    /// Renders the estimated-time text of this state's own fields.
    pub fn get_estimate_string(&self) -> (r: Vec<u8>)
        ensures
            r@ == estimate_of(self@),
            r@.len() <= 60,
    {
        if self.file_estimated_time < 0 {
            let mut r: Vec<u8> = Vec::new();
            push_repeat(&mut r, 0x20, 10);
            proof {
                reveal(estimate_text_spec);
                assert(r@ =~= estimate_of(self@));
            }
            r
        } else {
            let f = self.file_estimated_time as u64;
            let p: u64 = if self.printing_progress < 0 {
                0
            } else if self.printing_progress > 100 {
                100
            } else {
                self.printing_progress as u64
            };
            proof {
                assert(p * f <= 100 * 0x7fffffffu64) by (nonlinear_arith)
                    requires
                        p <= 100,
                        f <= 0x7fffffff,
                ;
            }
            let done = p * f / 100;
            proof {
                assert(done <= f) by (nonlinear_arith)
                    requires
                        p <= 100,
                        done == p * f / 100,
                ;
            }
            let eta = f - done;
            let h = eta / 3600;
            let m = (eta % 3600) / 60;
            let mut r: Vec<u8> = Vec::new();
            r.push(0x45);
            r.push(0x54);
            r.push(0x41);
            r.push(0x3a);
            r.push(0x20);
            push_dec2_u64(&mut r, h);
            r.push(0x3a);
            push_dec2_u64(&mut r, m);
            proof {
                reveal(estimate_text_spec);
                lemma_dec_len(h);
                lemma_dec_len(m);
                assert(r@ =~= estimate_of(self@));
            }
            r
        }
    }

    /// Renders the four visible macro rows as write frames, top to bottom.
    pub fn update_macros_list(&self) -> (frames: Vec<Vec<u8>>)
        requires
            self@.wf(),
        ensures
            frames.deep_view() == macro_frames_spec(self@.macros, self@.macros_scroll),
    {
        let mut frames: Vec<Vec<u8>> = Vec::new();
        let f0 = self.render_macro_row(0);
        let f1 = self.render_macro_row(1);
        let f2 = self.render_macro_row(2);
        let f3 = self.render_macro_row(3);
        frames.push(construct_write_buf(0x3000, f0.as_slice()));
        frames.push(construct_write_buf(0x3051, f1.as_slice()));
        frames.push(construct_write_buf(0x3102, f2.as_slice()));
        frames.push(construct_write_buf(0x3153, f3.as_slice()));
        proof {
            assert(frames.deep_view() =~~= macro_frames_spec(self@.macros, self@.macros_scroll));
        }
        frames
    }

    /// One differ pass: compares this state against the shadow state
    /// `last`, returns exactly the frames `diff_emits` lists for the pair,
    /// and moves the shadow copy forward so an unchanged state emits
    /// nothing further but the clock heartbeat.
    #[verifier::rlimit(100)]
    #[verifier::spinoff_prover]
    pub fn update_changed(&mut self, last: &mut ScreenState) -> (frames: Vec<Vec<u8>>)
        requires
            old(self)@.wf(),
        ensures
            frames.deep_view() == diff_emits(old(self)@, old(last)@),
            final(self)@ == diff_post_self(old(self)@, old(last)@),
            final(last)@ == diff_post_old(old(self)@, old(last)@),
            final(self)@.wf(),
            final(last)@.wf(),
    {
        let ghost s0 = self@;
        let ghost o0 = last@;
        let mut frames: Vec<Vec<u8>> = Vec::new();

        // The clock is the link heartbeat: always sent.
        push_frame(&mut frames, construct_write_buf(0x2000, self.time.as_slice()));
        last.time = copy_bytes(&self.time);
        let ghost f1 = frames.deep_view();
        proof {
            assert(f1 =~= emit_time(s0));
        }

        if !bytes_eq(&self.model_name, &last.model_name) {
            push_frame(&mut frames, construct_write_buf(0x2015, self.model_name.as_slice()));
        }
        last.model_name = copy_bytes(&self.model_name);
        let ghost f2 = frames.deep_view();
        proof {
            assert(f2 =~= f1 + emit_model(s0, o0)) by {
                reveal(emit_model);
            }
        }

        if self.nozzle_temp != last.nozzle_temp {
            push_frame(&mut frames, construct_i16(0x2025, self.nozzle_temp));
            last.nozzle_temp = self.nozzle_temp;
        }
        let ghost f3 = frames.deep_view();
        proof {
            assert(f3 =~= f2 + emit_nozzle(s0, o0)) by {
                reveal(emit_nozzle);
            }
        }

        if self.target_nozzle_temp != last.target_nozzle_temp {
            push_frame(&mut frames, construct_i16(0x2026, self.target_nozzle_temp));
            last.target_nozzle_temp = self.target_nozzle_temp;
        }
        let ghost f4 = frames.deep_view();
        proof {
            assert(f4 =~= f3 + emit_target_nozzle(s0, o0)) by {
                reveal(emit_target_nozzle);
            }
        }

        if self.bed_temp != last.bed_temp {
            push_frame(&mut frames, construct_i16(0x2027, self.bed_temp));
            last.bed_temp = self.bed_temp;
        }
        let ghost f5 = frames.deep_view();
        proof {
            assert(f5 =~= f4 + emit_bed(s0, o0)) by {
                reveal(emit_bed);
            }
        }

        if self.target_bed_temp != last.target_bed_temp {
            push_frame(&mut frames, construct_i16(0x2028, self.target_bed_temp));
            last.target_bed_temp = self.target_bed_temp;
        }
        let ghost f6 = frames.deep_view();
        proof {
            assert(f6 =~= f5 + emit_target_bed(s0, o0)) by {
                reveal(emit_target_bed);
            }
        }

        // The estimate text is derived: recompute it when its inputs moved,
        // send it only when the rendered text itself differs.
        if self.file_estimated_time != last.file_estimated_time || self.printing_progress
            != last.printing_progress {
            let est = self.get_estimate_string();
            if !bytes_eq(&self.estimated_time, &est) {
                push_frame(&mut frames, construct_write_buf(0x2005, est.as_slice()));
                self.estimated_time = est;
                last.file_estimated_time = self.file_estimated_time;
                last.estimated_time = copy_bytes(&self.estimated_time);
            }
        }
        let ghost f7 = frames.deep_view();
        proof {
            assert(f7 =~= f6 + emit_eta(s0, o0)) by {
                reveal(emit_eta);
            }
        }

        if self.printing_progress != last.printing_progress {
            push_frame(&mut frames, construct_i16(0x2029, self.printing_progress));
            last.printing_progress = self.printing_progress;
        }
        let ghost f8 = frames.deep_view();
        proof {
            assert(f8 =~= f7 + emit_progress(s0, o0)) by {
                reveal(emit_progress);
            }
        }

        if self.printer_state != last.printer_state {
            let mut transition = state_change_frames(self.printer_state);
            append_frames(&mut frames, &mut transition);
            last.printer_state = self.printer_state;
        }
        let ghost f9 = frames.deep_view();
        proof {
            assert(f9 =~= f8 + emit_state(s0, o0)) by {
                reveal(emit_state);
            }
        }

        let same_macros = byte_lists_eq(&self.macros, &last.macros);
        if !same_macros || self.macros_scroll != last.macros_scroll {
            let mut rows = self.update_macros_list();
            append_frames(&mut frames, &mut rows);
            last.macros = copy_byte_lists(&self.macros);
            last.macros_scroll = self.macros_scroll;
        }
        let ghost f10 = frames.deep_view();
        proof {
            assert(f10 =~= f9 + emit_macros(s0, o0)) by {
                reveal(emit_macros);
            }
            assert(f10 == diff_emits(s0, o0));
            assert(self@ =~= diff_post_self(s0, o0));
            assert(last@ =~= diff_post_old(s0, o0));
        }
        frames
    }

    fn render_macro_row(&self, row: usize) -> (r: Vec<u8>)
        requires
            self@.wf(),
            row < 4,
        ensures
            r@ == macro_row_spec(self@.macros, self@.macros_scroll, row as int),
            r@.len() == 50,
    {
        let remaining = self.macros.len() - self.macros_scroll;
        if row < remaining {
            let idx = self.macros_scroll + row;
            proof {
                assert(self.macros@[idx as int].deep_view() =~= self.macros@[idx as int]@);
            }
            left_pad(&self.macros[idx], 0x20, 50)
        } else {
            let mut r: Vec<u8> = Vec::new();
            push_repeat(&mut r, 0x20, 50);
            r
        }
    }
}

} // verus!
