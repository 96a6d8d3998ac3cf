//! The decisions of the browser supervisor that runs a CYD application
//! again and again in the simulator shell.
//!
//! The supervisor owns the notices shown by the page, the orientation, the
//! simulated clock setting and whether the application's input controls are
//! live. After each run it decides what the application's command means;
//! the page's handle reads and changes the same state. The browser plumbing
//! (canvas, storage, futures) stays with the caller.

use vstd::prelude::*;
use crate::orientation::Orientation;

verus! {

/// Seconds in a day: the simulated time of day lies below this.
pub const SECONDS_PER_DAY: u32 = 86_400;

/// Severity assigned to a framework notice.
#[derive(Clone, Copy, Debug, Eq, PartialEq)]
pub enum NoticeSeverity {
    /// Informational notice.
    Info,
    /// Recoverable warning.
    Warning,
    /// Terminal runtime failure.
    Fatal,
}

/// A notice for the browser shell: a stable identifier, a severity and an
/// optional diagnostic detail.
#[derive(Clone, Debug)]
pub struct Notice {
    id: String,
    severity: NoticeSeverity,
    detail: Option<String>,
}

/// A notice as a mathematical value.
pub ghost struct NoticeModel {
    pub id: Seq<char>,
    pub severity: NoticeSeverity,
    pub detail: Option<Seq<char>>,
}

impl View for Notice {
    type V = NoticeModel;

    closed spec fn view(&self) -> NoticeModel {
        NoticeModel {
            id: self.id@,
            severity: self.severity,
            detail: match self.detail {
                Some(detail) => Some(detail@),
                None => None,
            },
        }
    }
}

impl Notice {
    /// An informational notice with no detail.
    pub fn info(id: &str) -> (notice: Self)
        ensures
            notice@ == (NoticeModel { id: id@, severity: NoticeSeverity::Info, detail: None }),
    {
        Notice { id: id.to_owned(), severity: NoticeSeverity::Info, detail: None }
    }

    /// The fatal `runtime-error` notice, carrying what went wrong.
    pub fn fatal(detail: String) -> (notice: Self)
        ensures
            notice@ == (NoticeModel {
                id: "runtime-error"@,
                severity: NoticeSeverity::Fatal,
                detail: Some(detail@),
            }),
    {
        Notice { id: "runtime-error".to_owned(), severity: NoticeSeverity::Fatal, detail: Some(detail) }
    }

    /// Return the stable notice identifier.
    pub fn id(&self) -> (id: String)
        ensures
            id@ == self@.id,
    {
        self.id.clone()
    }

    /// Return the notice severity.
    pub fn severity(&self) -> (severity: NoticeSeverity)
        ensures
            severity == self@.severity,
    {
        self.severity
    }

    /// Return optional diagnostic detail.
    pub fn detail(&self) -> (detail: Option<String>)
        ensures
            match detail {
                Some(text) => self@.detail == Some(text@),
                None => self@.detail is None,
            },
    {
        match &self.detail {
            Some(detail) => Some(detail.clone()),
            None => None,
        }
    }
}

/// The CYD web application's name for a supervisor command.
pub type CydWebCommand = Command;

/// The CYD web application's name for a notice's severity.
pub type CydWebNoticeSeverity = NoticeSeverity;

/// The CYD web application's name for a notice.
pub type CydWebNotice = Notice;

/// Result requested by an application after one run.
#[derive(Clone, Copy, Debug, PartialEq, Eq)]
pub enum Command {
    /// Restart the current session.
    Restart,
    /// Report that physical calibration is unnecessary in the browser.
    CalibrationNotNeeded,
    /// Clear simulated Wi-Fi state and restart.
    ResetWifi,
    /// Persist and apply a new display orientation.
    Reorientate(Orientation),
    /// Stop the supervisor.
    Stop,
}

/// What the supervisor does after a run.
#[derive(Clone, Copy, Debug, PartialEq, Eq)]
pub enum RunFollowUp {
    /// Run the application again.
    Restart,
    /// Clear the simulated Wi-Fi state, then run again.
    ResetWifiThenRestart,
    /// Store this orientation (then record it), then run again.
    SaveOrientation(Orientation),
    /// Stop supervising.
    Stop,
}

/// The time of day was not below a day's seconds.
#[derive(Clone, Copy, Debug, PartialEq, Eq)]
pub struct TimeOfDayOutOfRange;

/// The supervisor's state, shared by the run loop and the page's handle.
#[derive(Debug)]
pub struct SupervisorState {
    notices: Vec<Notice>,
    orientation: Orientation,
    stopped: bool,
    live_control: bool,
    clock_time_of_day: Option<u32>,
    clock_control_visible: bool,
}

/// The supervisor's state as a mathematical value.
pub ghost struct SupervisorModel {
    /// Pending notices, oldest first.
    pub notices: Seq<NoticeModel>,
    /// The orientation the next run uses.
    pub orientation: Orientation,
    /// Whether supervision has ended.
    pub stopped: bool,
    /// Whether a run's input controls are live.
    pub live_control: bool,
    /// The simulated time of day, or `None` for the live clock.
    pub clock_time_of_day: Option<u32>,
    /// Whether the application asked for the clock control.
    pub clock_control_visible: bool,
}

impl View for SupervisorState {
    type V = SupervisorModel;

    closed spec fn view(&self) -> SupervisorModel {
        SupervisorModel {
            notices: self.notices@.map_values(|notice: Notice| notice@),
            orientation: self.orientation,
            stopped: self.stopped,
            live_control: self.live_control,
            clock_time_of_day: self.clock_time_of_day,
            clock_control_visible: self.clock_control_visible,
        }
    }
}

/// Whether an orientation is one of the two inverted ones.
pub open spec fn is_inverted(orientation: Orientation) -> bool {
    orientation == Orientation::LandscapeInverted || orientation == Orientation::PortraitInverted
}

/// Whether `orientation` is one of the two inverted ones, which the page
/// shows turned upside down.
pub fn orientation_is_inverted(orientation: Orientation) -> (inverted: bool)
    ensures
        inverted == is_inverted(orientation),
{
    match orientation {
        Orientation::LandscapeInverted | Orientation::PortraitInverted => true,
        _ => false,
    }
}

impl SupervisorState {
    /// The state at start: no notices, the given orientation, live controls,
    /// the live clock and no clock control.
    pub fn new(orientation: Orientation) -> (state: Self)
        ensures
            state@ == (SupervisorModel {
                notices: Seq::empty(),
                orientation,
                stopped: false,
                live_control: true,
                clock_time_of_day: None,
                clock_control_visible: false,
            }),
    {
        let state = SupervisorState {
            notices: Vec::new(),
            orientation,
            stopped: false,
            live_control: true,
            clock_time_of_day: None,
            clock_control_visible: false,
        };
        assert(state@.notices =~= Seq::empty());
        state
    }

    /// Whether the page's input reaches the application: only while a run's
    /// controls are live and supervision has not ended.
    pub fn control_enabled(&self) -> (enabled: bool)
        ensures
            enabled == (!self@.stopped && self@.live_control),
    {
        !self.stopped && self.live_control
    }

    /// Whether live controls show an inverted orientation.
    pub fn orientation_is_inverted(&self) -> (inverted: bool)
        ensures
            inverted == (self@.live_control && is_inverted(self@.orientation)),
    {
        self.live_control && orientation_is_inverted(self.orientation)
    }

    /// The orientation the next run uses.
    pub fn orientation(&self) -> (orientation: Orientation)
        ensures
            orientation == self@.orientation,
    {
        self.orientation
    }

    /// Whether supervision has ended.
    pub fn is_stopped(&self) -> (stopped: bool)
        ensures
            stopped == self@.stopped,
    {
        self.stopped
    }

    /// Removes and returns the oldest pending notice.
    pub fn take_notice(&mut self) -> (notice: Option<Notice>)
        ensures
            old(self)@.notices.len() == 0 ==> notice is None && final(self)@ == old(self)@,
            old(self)@.notices.len() > 0 ==> notice is Some && notice->0@ == old(self)@.notices[0]
                && final(self)@ == (SupervisorModel {
                notices: old(self)@.notices.drop_first(),
                ..old(self)@
            }),
    {
        if self.notices.len() == 0 {
            return None;
        }
        let notice = self.notices.remove(0);
        assert(self@.notices =~= old(self)@.notices.drop_first());
        Some(notice)
    }

    /// Appends a notice.
    pub fn push_notice(&mut self, notice: Notice)
        ensures
            final(self)@ == (SupervisorModel {
                notices: old(self)@.notices.push(notice@),
                ..old(self)@
            }),
    {
        self.notices.push(notice);
        assert(self@.notices =~= old(self)@.notices.push(notice@));
    }

    /// Records a fatal failure as a `runtime-error` notice.
    pub fn fatal(&mut self, message: String)
        ensures
            final(self)@ == (SupervisorModel {
                notices: old(self)@.notices.push(
                    NoticeModel {
                        id: "runtime-error"@,
                        severity: NoticeSeverity::Fatal,
                        detail: Some(message@),
                    },
                ),
                ..old(self)@
            }),
    {
        self.push_notice(Notice::fatal(message));
    }

    /// Sets the simulated local time, in seconds after midnight; a value of
    /// a whole day or more is refused and changes nothing.
    pub fn set_clock_time_of_day(&mut self, seconds_of_day: u32) -> (result: Result<
        (),
        TimeOfDayOutOfRange,
    >)
        ensures
            seconds_of_day < SECONDS_PER_DAY ==> result is Ok && final(self)@ == (SupervisorModel {
                clock_time_of_day: Some(seconds_of_day),
                ..old(self)@
            }),
            seconds_of_day >= SECONDS_PER_DAY ==> result is Err && final(self)@ == old(self)@,
    {
        if seconds_of_day >= SECONDS_PER_DAY {
            return Err(TimeOfDayOutOfRange);
        }
        self.clock_time_of_day = Some(seconds_of_day);
        Ok(())
    }

    /// Restores the browser's live local clock.
    pub fn use_live_clock(&mut self)
        ensures
            final(self)@ == (SupervisorModel { clock_time_of_day: None, ..old(self)@ }),
    {
        self.clock_time_of_day = None;
    }

    /// The simulated time of day, if one is set.
    pub fn clock_time_of_day(&self) -> (seconds_of_day: Option<u32>)
        ensures
            seconds_of_day == self@.clock_time_of_day,
    {
        self.clock_time_of_day
    }

    /// Records that the application asked for the clock control.
    pub fn show_clock_control(&mut self)
        ensures
            final(self)@ == (SupervisorModel { clock_control_visible: true, ..old(self)@ }),
    {
        self.clock_control_visible = true;
    }

    /// Return whether the application has requested the clock control.
    pub fn clock_control_is_visible(&self) -> (visible: bool)
        ensures
            visible == self@.clock_control_visible,
    {
        self.clock_control_visible
    }

    /// A new run's controls become live.
    pub fn attach_control(&mut self)
        ensures
            final(self)@ == (SupervisorModel { live_control: true, ..old(self)@ }),
    {
        self.live_control = true;
    }

    /// The run's controls are released; returns whether there were live
    /// ones (whose transient input the caller then resets).
    pub fn release_control(&mut self) -> (released: bool)
        ensures
            released == old(self)@.live_control,
            final(self)@ == (SupervisorModel { live_control: false, ..old(self)@ }),
    {
        let released = self.live_control;
        self.live_control = false;
        released
    }

    /// Decides what follows a run that returned `command`: a restart, a
    /// Wi-Fi reset and restart (with a `wifi-simulated` notice), a restart
    /// with a `calibration-not-needed` notice, storing a new orientation,
    /// or the end.
    pub fn finish_run(&mut self, command: Command) -> (follow_up: RunFollowUp)
        ensures
            match command {
                Command::Restart => follow_up == RunFollowUp::Restart && final(self)@ == old(self)@,
                Command::Stop => follow_up == RunFollowUp::Stop && final(self)@ == old(self)@,
                Command::ResetWifi => follow_up == RunFollowUp::ResetWifiThenRestart
                    && final(self)@ == (SupervisorModel {
                    notices: old(self)@.notices.push(
                        NoticeModel {
                            id: "wifi-simulated"@,
                            severity: NoticeSeverity::Info,
                            detail: None,
                        },
                    ),
                    ..old(self)@
                }),
                Command::CalibrationNotNeeded => follow_up == RunFollowUp::Restart && final(self)@
                    == (SupervisorModel {
                    notices: old(self)@.notices.push(
                        NoticeModel {
                            id: "calibration-not-needed"@,
                            severity: NoticeSeverity::Info,
                            detail: None,
                        },
                    ),
                    ..old(self)@
                }),
                Command::Reorientate(orientation) => follow_up == RunFollowUp::SaveOrientation(
                    orientation,
                ) && final(self)@ == old(self)@,
            },
    {
        match command {
            Command::Restart => RunFollowUp::Restart,
            Command::Stop => RunFollowUp::Stop,
            Command::ResetWifi => {
                self.push_notice(Notice::info("wifi-simulated"));
                RunFollowUp::ResetWifiThenRestart
            },
            Command::CalibrationNotNeeded => {
                self.push_notice(Notice::info("calibration-not-needed"));
                RunFollowUp::Restart
            },
            Command::Reorientate(orientation) => RunFollowUp::SaveOrientation(orientation),
        }
    }

    /// Records the orientation the next run uses, once it was stored.
    pub fn set_orientation(&mut self, orientation: Orientation)
        ensures
            final(self)@ == (SupervisorModel { orientation, ..old(self)@ }),
    {
        self.orientation = orientation;
    }

    /// Ends supervision: the controls are released and the state stopped.
    pub fn stop(&mut self)
        ensures
            final(self)@ == (SupervisorModel { stopped: true, live_control: false, ..old(self)@ }),
    {
        self.live_control = false;
        self.stopped = true;
    }
}

/// Presentation metadata shown by the shared simulator page.
#[derive(Clone, Copy, Debug)]
pub struct PageInfo {
    /// Page title.
    pub title: &'static str,
    /// Short preview text.
    pub preview: &'static str,
    /// Longer application description.
    pub description: &'static str,
    /// Human-readable interaction instructions.
    pub controls: &'static str,
    /// Link to the platform-neutral application source.
    pub core_code_url: &'static str,
}

impl PageInfo {
    /// Construct page metadata.
    pub fn new(
        title: &'static str,
        preview: &'static str,
        description: &'static str,
        controls: &'static str,
        core_code_url: &'static str,
    ) -> (page_info: Self)
        ensures
            page_info.title == title,
            page_info.preview == preview,
            page_info.description == description,
            page_info.controls == controls,
            page_info.core_code_url == core_code_url,
    {
        PageInfo { title, preview, description, controls, core_code_url }
    }

    /// Return the configured page title.
    pub fn page_title(&self) -> (title: String)
        ensures
            title@ == self.title@,
    {
        self.title.to_owned()
    }

    /// Return the configured preview text.
    pub fn page_preview(&self) -> (preview: String)
        ensures
            preview@ == self.preview@,
    {
        self.preview.to_owned()
    }

    /// Return the configured page description.
    pub fn page_description(&self) -> (description: String)
        ensures
            description@ == self.description@,
    {
        self.description.to_owned()
    }

    /// Return the configured interaction instructions.
    pub fn page_controls(&self) -> (controls: String)
        ensures
            controls@ == self.controls@,
    {
        self.controls.to_owned()
    }

    /// Return the configured platform-neutral source URL.
    pub fn page_core_code_url(&self) -> (url: String)
        ensures
            url@ == self.core_code_url@,
    {
        self.core_code_url.to_owned()
    }
}

} // verus!
