//! The boot splash: a title, a message and a progress bar that advances with
//! the system tick.

use crate::drivers::display::{issued, DisplayError, DisplayManager, DrawOp, TextSize};
use crate::system::events::{elapsed_ms, Event};
use crate::ui::framework::{
    clamped_progress, drawn, lemma_ascii_text_len, text_width, Label, Position, ProgressBar,
    Rectangle, Screen, Widget,
};
use vstd::prelude::*;

verus! {

/// Milliseconds between two steps of the progress where nothing else is set.
pub const DEFAULT_STEP_MS: u64 = 100;

/// What the splash shows and remembers.
pub struct LoadingModel {
    pub title: Label,
    pub message: Label,
    pub progress_bar: ProgressBar,
    pub progress: u8,
    pub step_duration: u64,
    pub last_update: u64,
}

/// One frame of the splash: blank, title, message, bar, show.
pub open spec fn loading_frame(model: LoadingModel) -> Seq<DrawOp> {
    seq![DrawOp::Clear] + model.title.draw_ops() + model.message.draw_ops()
        + model.progress_bar.draw_ops() + seq![DrawOp::Flush]
}

/// Whether a step is due at `now`.
pub open spec fn step_due(model: LoadingModel, now: u64) -> bool {
    elapsed_ms(now, model.last_update) >= model.step_duration
}

/// Whether the progress advances at `now`: a step is due and the progress
/// is not complete.
pub open spec fn progress_advances(model: LoadingModel, now: u64) -> bool {
    step_due(model, now) && model.progress < 100
}

/// The splash after an update at `now`. Where the progress advances it does
/// so by one percent, and the splash draws itself. A due step restarts the
/// wait at `now`, unless that drawing failed: then the step stays due.
pub open spec fn loading_after_update(model: LoadingModel, now: u64, online: bool) -> LoadingModel {
    if progress_advances(model, now) {
        LoadingModel {
            title: model.title,
            message: model.message,
            progress_bar: model.progress_bar.with_progress((model.progress + 1) as u8),
            progress: (model.progress + 1) as u8,
            step_duration: model.step_duration,
            last_update: if online {
                now
            } else {
                model.last_update
            },
        }
    } else if step_due(model, now) {
        LoadingModel {
            title: model.title,
            message: model.message,
            progress_bar: model.progress_bar,
            progress: model.progress,
            step_duration: model.step_duration,
            last_update: now,
        }
    } else {
        model
    }
}

/// The primitives of an update at `now`: one frame of the advanced splash
/// where the progress advances, nothing else.
pub open spec fn loading_update_ops(model: LoadingModel, now: u64) -> Seq<DrawOp> {
    if progress_advances(model, now) {
        loading_frame(loading_after_update(model, now, true))
    } else {
        Seq::empty()
    }
}

/// Whether the parts of the splash are well-formed and agree on the
/// progress.
pub open spec fn loading_wf(model: LoadingModel) -> bool {
    &&& model.title.label_wf()
    &&& model.message.label_wf()
    &&& model.progress_bar.bar_wf()
    &&& model.progress <= 100
    &&& model.progress_bar.progress() == model.progress
}

/// The message that the boot shows at `progress` percent.
pub open spec fn boot_message_text(progress: u8) -> Seq<char> {
    if progress <= 20 {
        "Initialising hardware..."@
    } else if progress <= 40 {
        "Loading drivers..."@
    } else if progress <= 60 {
        "Starting services..."@
    } else if progress <= 80 {
        "Initialising UI..."@
    } else {
        "Almost ready..."@
    }
}

/// Every boot message is a short line, whatever the size of its text.
pub proof fn lemma_boot_message_fits(progress: u8, size: TextSize)
    ensures
        text_width(boot_message_text(progress), size) <= 192,
{
    reveal_strlit("Initialising hardware...");
    reveal_strlit("Loading drivers...");
    reveal_strlit("Starting services...");
    reveal_strlit("Initialising UI...");
    reveal_strlit("Almost ready...");
    lemma_ascii_text_len(boot_message_text(progress));
}

/// The message that the boot shows at `progress` percent.
pub fn boot_message(progress: u8) -> (message: &'static str)
    ensures
        message@ == boot_message_text(progress),
{
    if progress <= 20 {
        "Initialising hardware..."
    } else if progress <= 40 {
        "Loading drivers..."
    } else if progress <= 60 {
        "Starting services..."
    } else if progress <= 80 {
        "Initialising UI..."
    } else {
        "Almost ready..."
    }
}

/// The boot splash.
pub struct LoadingScreen {
    title: Label,
    message: Label,
    progress_bar: ProgressBar,
    progress: u8,
    step_duration: u64,
    last_update: u64,
}

impl LoadingScreen {
    /// What the splash shows and remembers.
    pub closed spec fn loading_model(&self) -> LoadingModel {
        LoadingModel {
            title: self.title,
            message: self.message,
            progress_bar: self.progress_bar,
            progress: self.progress,
            step_duration: self.step_duration,
            last_update: self.last_update,
        }
    }

    /// A splash made at `now` with `title` and `message`, at 0 percent.
    pub fn new(title: &str, message: &str, now: u64) -> (screen: Self)
        requires
            text_width(title@, TextSize::Normal) <= u32::MAX,
            text_width(message@, TextSize::Small) <= u32::MAX,
        ensures
            screen.wf(),
            screen.loading_model().title.text() == title@,
            screen.loading_model().title.position() == (Position { x: 10, y: 10 }),
            screen.loading_model().title.size() == TextSize::Normal,
            screen.loading_model().message.text() == message@,
            screen.loading_model().message.position() == (Position { x: 10, y: 30 }),
            screen.loading_model().message.size() == TextSize::Small,
            screen.loading_model().progress_bar.bar_bounds() == (Rectangle {
                x: 10,
                y: 45,
                width: 108,
                height: 8,
            }),
            screen.loading_model().progress == 0,
            screen.loading_model().step_duration == DEFAULT_STEP_MS,
            screen.loading_model().last_update == now,
    {
        LoadingScreen {
            title: Label::new(title, 10, 10, TextSize::Normal),
            message: Label::new(message, 10, 30, TextSize::Small),
            progress_bar: ProgressBar::new(10, 45, 108, 0),
            progress: 0,
            step_duration: DEFAULT_STEP_MS,
            last_update: now,
        }
    }

    /// Replaces the message.
    pub fn set_message(&mut self, message: &str)
        requires
            old(self).wf(),
            text_width(message@, old(self).loading_model().message.size()) <= u32::MAX,
        ensures
            final(self).wf(),
            final(self).loading_model().message.text() == message@,
            final(self).loading_model().message.position() == old(
                self,
            ).loading_model().message.position(),
            final(self).loading_model().message.size() == old(self).loading_model().message.size(),
            final(self).loading_model().title == old(self).loading_model().title,
            final(self).loading_model().progress_bar == old(self).loading_model().progress_bar,
            final(self).loading_model().progress == old(self).loading_model().progress,
            final(self).loading_model().step_duration == old(self).loading_model().step_duration,
            final(self).loading_model().last_update == old(self).loading_model().last_update,
    {
        self.message.set_text(message);
    }

    /// Sets the progress to `progress` percent, at most 100.
    pub fn set_progress(&mut self, progress: u8)
        requires
            old(self).wf(),
        ensures
            final(self).wf(),
            final(self).loading_model() == (LoadingModel {
                progress: if progress >= 100 {
                    100
                } else {
                    progress
                },
                progress_bar: old(self).loading_model().progress_bar.with_progress(
                    if progress >= 100 {
                        100
                    } else {
                        progress
                    },
                ),
                ..old(self).loading_model()
            }),
    {
        self.progress = if progress >= 100 {
            100
        } else {
            progress
        };
        self.progress_bar.set_progress(self.progress);
        proof {
            self.progress_bar.lemma_with_progress(self.progress);
        }
    }

    /// Shows one step of the boot: sets the message that goes with `progress`
    /// percent and the progress, and draws the splash.
    pub fn show_boot_step(&mut self, progress: u8, display: &mut DisplayManager) -> (result:
        Result<(), DisplayError>)
        requires
            old(self).wf(),
        ensures
            final(self).wf(),
            final(self).loading_model().message.text() == boot_message_text(progress),
            final(self).loading_model().message.position() == old(
                self,
            ).loading_model().message.position(),
            final(self).loading_model().message.size() == old(self).loading_model().message.size(),
            final(self).loading_model().title == old(self).loading_model().title,
            final(self).loading_model().progress == clamped_progress(progress),
            final(self).loading_model().progress_bar == old(
                self,
            ).loading_model().progress_bar.with_progress(clamped_progress(progress)),
            final(self).loading_model().step_duration == old(self).loading_model().step_duration,
            final(self).loading_model().last_update == old(self).loading_model().last_update,
            issued(
                *old(display),
                *final(display),
                loading_frame(final(self).loading_model()),
                result,
            ),
    {
        proof {
            lemma_boot_message_fits(progress, self.message.size());
        }
        self.set_message(boot_message(progress));
        self.set_progress(progress);
        self.draw(display)
    }

    /// Advances the progress by one percent when a step is due at `now` and
    /// the progress is not complete, and then draws the splash. Fails only
    /// where that drawing fails.
    pub fn update(&mut self, now: u64, display: &mut DisplayManager) -> (result: Result<
        (),
        DisplayError,
    >)
        requires
            old(self).wf(),
        ensures
            final(self).wf(),
            final(self).loading_model() == loading_after_update(
                old(self).loading_model(),
                now,
                old(display).is_online(),
            ),
            drawn(
                *old(display),
                *final(display),
                loading_update_ops(old(self).loading_model(), now),
            ),
            result is Err <==> progress_advances(old(self).loading_model(), now) && !old(
                display,
            ).is_online(),
            result is Err ==> result == Err::<(), DisplayError>(DisplayError::DrawError),
    {
        let elapsed: u64 = if now >= self.last_update {
            now - self.last_update
        } else {
            0
        };
        if elapsed >= self.step_duration {
            if self.progress < 100 {
                self.progress = self.progress + 1;
                self.progress_bar.set_progress(self.progress);
                proof {
                    old(self).progress_bar.lemma_with_progress(self.progress);
                }
                self.draw(display)?;
            }
            self.last_update = now;
        }
        assert(display@ =~= old(display)@ + loading_update_ops(old(self).loading_model(), now));
        Ok(())
    }

    /// Whether the progress has reached 100 percent.
    pub fn is_complete(&self) -> (complete: bool)
        ensures
            complete == (self.loading_model().progress >= 100),
    {
        self.progress >= 100
    }

    /// The progress, in percent.
    pub fn get_progress(&self) -> (progress: u8)
        ensures
            progress == self.loading_model().progress,
    {
        self.progress
    }

    /// The message.
    pub fn get_message(&self) -> (message: &str)
        ensures
            message@ == self.loading_model().message.text(),
    {
        self.message.get_text()
    }
}

impl Screen for LoadingScreen {
    type Model = LoadingModel;

    open spec fn model(&self) -> LoadingModel {
        self.loading_model()
    }

    open spec fn wf(&self) -> bool {
        loading_wf(self.loading_model())
    }

    open spec fn model_draw_ops(model: LoadingModel) -> Seq<DrawOp> {
        loading_frame(model)
    }

    open spec fn model_consumes(model: LoadingModel, event: Event) -> bool {
        event is SystemTick
    }

    open spec fn model_after_event(
        model: LoadingModel,
        event: Event,
        now: u64,
        online: bool,
    ) -> LoadingModel {
        if event is SystemTick {
            loading_after_update(model, now, online)
        } else {
            model
        }
    }

    open spec fn model_event_ops(model: LoadingModel, event: Event, now: u64) -> Seq<DrawOp> {
        if event is SystemTick {
            loading_update_ops(model, now)
        } else {
            Seq::empty()
        }
    }

    open spec fn model_callbacks_ran(model: LoadingModel, event: Event) -> bool {
        true
    }

    fn draw(&self, display: &mut DisplayManager) -> (result: Result<(), DisplayError>) {
        display.clear()?;
        self.title.draw(display)?;
        self.message.draw(display)?;
        self.progress_bar.draw(display)?;
        let result = display.flush();
        assert(display@ =~= old(display)@ + loading_frame(self.loading_model()));
        result
    }

    fn handle_event(&mut self, event: &Event, now: u64, display: &mut DisplayManager) -> (consumed:
        bool) {
        match event {
            Event::SystemTick => {
                let _ = self.update(now, display);
                true
            },
            _ => false,
        }
    }
}

} // verus!
