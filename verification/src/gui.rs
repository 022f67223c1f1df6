//! State and decisions of the sidebar surface: the chat command
//! interpreter, window selection, analysis dispatch and the transcript.
//!
//! Rendering, input events, thread spawning and every OS call live
//! outside the library.  The render loop and the event handlers call in
//! here with plain values: the interpreter parses one line of input,
//! updates the state it owns, writes any user-facing text into the
//! shared cell, and answers with the one background action the caller
//! should start.

use vstd::prelude::*;
use vstd::slice::{slice_subrange, slice_to_vec};
use vstd::string::*;

use crate::cell::{msg_capture_for_prompt, msg_processing, msg_processing_prompt, StateCell};
use crate::panel::PanelAnimator;
use crate::text::{ascii_lower, bytes_eq, contains_sub, push_all, spec_contains, spec_lower,
    spec_trim_spaces, trim_spaces};

verus! {

/// One exchange unit shown in the transcript.
pub struct ChatMessage {
    pub text: Vec<u8>,
    pub is_user: bool,
    pub timestamp_ms: u64,
}

/// A background analysis the caller should start.
pub struct AnalysisTask {
    pub image: Vec<u8>,
    pub prompt: Option<Vec<u8>>,
    pub model: Vec<u8>,
}

/// What the caller should do after one line of input was interpreted.
pub enum UserAction {
    /// Nothing to start; any feedback is already in the cell.
    Idle,
    /// Start a full-screen capture task.
    CaptureFullScreen,
    /// Look up the window list, select the window matching the query,
    /// and start a window capture task.
    CaptureWindowQuery(Vec<u8>),
    /// Start an analysis task.
    Analyze(AnalysisTask),
}

/// One line of chat input, parsed: either a command with its optional
/// argument, or a plain prompt.
pub enum Command {
    Capture,
    Window(Option<Vec<u8>>),
    Model(Option<Vec<u8>>),
    Analyze,
    Clear,
    Help,
    Unknown(Vec<u8>),
    Prompt(Vec<u8>),
}

/// Position of the first ASCII space at or after `i`, or the length.
pub open spec fn first_space_from(s: Seq<u8>, i: int) -> int
    decreases s.len() - i,
{
    if i < s.len() {
        if s[i] == 32 {
            i
        } else {
            first_space_from(s, i + 1)
        }
    } else {
        i
    }
}

/// The command token of a line: everything before the first space,
/// lower-cased.
pub open spec fn spec_token(s: Seq<u8>) -> Seq<u8> {
    spec_lower(s.subrange(0, first_space_from(s, 0)))
}

/// The argument of a line: everything after the first space, if any.
pub open spec fn spec_arg(s: Seq<u8>) -> Option<Seq<u8>> {
    let k = first_space_from(s, 0);
    if k < s.len() {
        Some(s.subrange(k + 1, s.len() as int))
    } else {
        None
    }
}

fn first_space(s: &[u8]) -> (r: usize)
    ensures
        r == first_space_from(s@, 0),
        r <= s@.len(),
{
    let n = s.len();
    let mut cur: usize = 0;
    while cur < n && s[cur] != 32
        invariant
            0 <= cur <= n,
            n == s@.len(),
            first_space_from(s@, 0) == first_space_from(s@, cur as int),
        decreases n - cur,
    {
        assert(first_space_from(s@, cur as int) == first_space_from(s@, cur + 1));
        cur = cur + 1;
    }
    cur
}

/// The optional argument of a line, trimmed, as the interpreter hands
/// it to the command.
pub open spec fn spec_trimmed_arg(s: Seq<u8>) -> Option<Seq<u8>> {
    match spec_arg(s) {
        Some(a) => Some(spec_trim_spaces(a)),
        None => None,
    }
}

/// A parsed line, at the specification level.
pub enum SpecCommand {
    Capture,
    Window(Option<Seq<u8>>),
    Model(Option<Seq<u8>>),
    Analyze,
    Clear,
    Help,
    Unknown(Seq<u8>),
    Prompt(Seq<u8>),
}

/// What one line of input parses to: a line that does not start with
/// `/` is a plain prompt; otherwise the lower-cased token before the
/// first space names the command and the rest, trimmed, is its
/// argument.
pub open spec fn spec_parse(s: Seq<u8>) -> SpecCommand {
    if s.len() == 0 || s[0] != 47 {
        SpecCommand::Prompt(s)
    } else {
        let tok = spec_token(s);
        let arg = spec_trimmed_arg(s);
        if tok == "/capture".spec_bytes() {
            SpecCommand::Capture
        } else if tok == "/window".spec_bytes() {
            SpecCommand::Window(arg)
        } else if tok == "/model".spec_bytes() {
            SpecCommand::Model(arg)
        } else if tok == "/analyze".spec_bytes() {
            SpecCommand::Analyze
        } else if tok == "/clear".spec_bytes() {
            SpecCommand::Clear
        } else if tok == "/help".spec_bytes() {
            SpecCommand::Help
        } else {
            SpecCommand::Unknown(tok)
        }
    }
}

/// What a parsed value stands for.
pub open spec fn cmd_spec(c: Command) -> SpecCommand {
    match c {
        Command::Capture => SpecCommand::Capture,
        Command::Window(a) => SpecCommand::Window(
            match a {
                Some(v) => Some(v@),
                None => None,
            },
        ),
        Command::Model(a) => SpecCommand::Model(
            match a {
                Some(v) => Some(v@),
                None => None,
            },
        ),
        Command::Analyze => SpecCommand::Analyze,
        Command::Clear => SpecCommand::Clear,
        Command::Help => SpecCommand::Help,
        Command::Unknown(t) => SpecCommand::Unknown(t@),
        Command::Prompt(p) => SpecCommand::Prompt(p@),
    }
}

/// The parsed value abstracts to the specified one.
pub open spec fn cmd_matches(r: Command, sc: SpecCommand) -> bool {
    cmd_spec(r) == sc
}

/// Parse one line of input, exactly as `spec_parse` says.
pub fn parse_command(input: &[u8]) -> (r: Command)
    ensures
        cmd_matches(r, spec_parse(input@)),
{
    if input.len() == 0 || input[0] != 47 {
        return Command::Prompt(slice_to_vec(input));
    }
    let k = first_space(input);
    let token = ascii_lower(slice_subrange(input, 0, k));
    let arg: Option<Vec<u8>> = if k < input.len() {
        Some(trim_spaces(slice_subrange(input, k + 1, input.len())))
    } else {
        None
    };
    if bytes_eq(token.as_slice(), "/capture".as_bytes()) {
        Command::Capture
    } else if bytes_eq(token.as_slice(), "/window".as_bytes()) {
        Command::Window(arg)
    } else if bytes_eq(token.as_slice(), "/model".as_bytes()) {
        Command::Model(arg)
    } else if bytes_eq(token.as_slice(), "/analyze".as_bytes()) {
        Command::Analyze
    } else if bytes_eq(token.as_slice(), "/clear".as_bytes()) {
        Command::Clear
    } else if bytes_eq(token.as_slice(), "/help".as_bytes()) {
        Command::Help
    } else {
        Command::Unknown(token)
    }
}

pub open spec fn msg_window_usage() -> Seq<u8> {
    "Please specify a window name or part of it after /window (e.g., /window firefox)".spec_bytes()
}

pub open spec fn msg_model_set(model: Seq<u8>) -> Seq<u8> {
    "Model set to: ".spec_bytes() + model
}

pub open spec fn msg_model_usage(model: Seq<u8>) -> Seq<u8> {
    "Current model: ".spec_bytes() + model + ". Usage: /model <model_name>".spec_bytes()
}

pub open spec fn msg_analyze_guard() -> Seq<u8> {
    "Please capture an image first using /capture or /window.".spec_bytes()
}

pub open spec fn msg_prompt_guard() -> Seq<u8> {
    "Please capture an image first before sending a prompt.".spec_bytes()
}

pub open spec fn msg_cleared() -> Seq<u8> {
    "Chat history and image cleared.".spec_bytes()
}

pub open spec fn msg_help() -> Seq<u8> {
    "Available commands:\n/capture - Capture full screen\n/window [name] - Capture a specific window (or part of name)\n/model [name] - Change AI model (e.g., /model llava:latest)\n/analyze - Analyze current image with default prompt\n/clear - Clear chat history and current image\n/help - Show this help message".spec_bytes()
}

pub open spec fn msg_unknown(token: Seq<u8>) -> Seq<u8> {
    "Unknown command: ".spec_bytes() + token + ". Type /help for available commands.".spec_bytes()
}

/// A window title matches a query when its lower-cased bytes contain
/// the lower-cased query.
pub open spec fn spec_title_matches(title: Seq<u8>, query: Seq<u8>) -> bool {
    spec_contains(spec_lower(title), spec_lower(query))
}

/// The panel, the window list and the window selection are unchanged.
pub open spec fn same_panel_and_windows(a: ScreenSnapApp, b: ScreenSnapApp) -> bool {
    &&& a.panel == b.panel
    &&& a.window_list == b.window_list
    &&& a.selected_window == b.selected_window
}

/// The cell's in-flight flag, image bytes and texture flag are
/// unchanged; only the result text may differ.
pub open spec fn same_cell_data(a: StateCell, b: StateCell) -> bool {
    &&& a.processing == b.processing
    &&& a.image_data == b.image_data
    &&& a.texture_loaded == b.texture_loaded
}

/// What carrying one command out does, apart from the transcript: the
/// action handed back, the whole resulting cell, and every other field
/// of the app state, in terms of the states before.
pub open spec fn spec_dispatch(
    sc: SpecCommand,
    self0: ScreenSnapApp,
    self1: ScreenSnapApp,
    cell0: StateCell,
    cell1: StateCell,
    r: UserAction,
) -> bool {
    match sc {
        SpecCommand::Capture => {
            &&& r is CaptureFullScreen
            &&& same_panel_and_windows(self0, self1)
            &&& self1.model_name == self0.model_name
            &&& cell1 == cell0
        },
        SpecCommand::Window(arg) => match arg {
            Some(q) => {
                &&& r matches UserAction::CaptureWindowQuery(v) && v@ == q
                &&& same_panel_and_windows(self0, self1)
                &&& self1.model_name == self0.model_name
                &&& cell1 == cell0
            },
            None => {
                &&& r is Idle
                &&& cell1.ai_response@ == msg_window_usage()
                &&& same_panel_and_windows(self0, self1)
                &&& self1.model_name == self0.model_name
                &&& same_cell_data(cell0, cell1)
            },
        },
        SpecCommand::Model(arg) => match arg {
            Some(m) => {
                &&& r is Idle
                &&& self1.model_name@ == m
                &&& cell1.ai_response@ == msg_model_set(m)
                &&& same_panel_and_windows(self0, self1)
                &&& same_cell_data(cell0, cell1)
            },
            None => {
                &&& r is Idle
                &&& cell1.ai_response@ == msg_model_usage(self0.model_name@)
                &&& same_panel_and_windows(self0, self1)
                &&& self1.model_name == self0.model_name
                &&& same_cell_data(cell0, cell1)
            },
        },
        SpecCommand::Analyze => {
            if cell0.image_data@.len() == 0 {
                &&& r is Idle
                &&& cell1.ai_response@ == msg_analyze_guard()
                &&& same_panel_and_windows(self0, self1)
                &&& self1.model_name == self0.model_name
                &&& same_cell_data(cell0, cell1)
            } else {
                &&& r matches UserAction::Analyze(t)
                &&& t.image@ == cell0.image_data@
                &&& t.prompt is None
                &&& t.model@ == self0.model_name@
                &&& cell1.processing
                &&& cell1.ai_response@ == msg_processing()
                &&& cell1.image_data == cell0.image_data
                &&& cell1.texture_loaded == cell0.texture_loaded
                &&& same_panel_and_windows(self0, self1)
                &&& self1.model_name == self0.model_name
            }
        },
        SpecCommand::Clear => {
            &&& r is Idle
            &&& cell1.image_data@.len() == 0
            &&& !cell1.texture_loaded
            &&& cell1.ai_response@ == msg_cleared()
            &&& cell1.processing == cell0.processing
            &&& same_panel_and_windows(self0, self1)
            &&& self1.model_name == self0.model_name
        },
        SpecCommand::Help => {
            &&& r is Idle
            &&& cell1.ai_response@ == msg_help()
            &&& same_panel_and_windows(self0, self1)
            &&& self1.model_name == self0.model_name
            &&& same_cell_data(cell0, cell1)
        },
        SpecCommand::Unknown(tk) => {
            &&& r is Idle
            &&& cell1.ai_response@ == msg_unknown(tk)
            &&& same_panel_and_windows(self0, self1)
            &&& self1.model_name == self0.model_name
            &&& same_cell_data(cell0, cell1)
        },
        SpecCommand::Prompt(p) => {
            if cell0.image_data@.len() == 0 {
                &&& r is Idle
                &&& cell1.ai_response@ == msg_prompt_guard()
                &&& same_panel_and_windows(self0, self1)
                &&& self1.model_name == self0.model_name
                &&& same_cell_data(cell0, cell1)
            } else {
                &&& r matches UserAction::Analyze(t)
                &&& t.image@ == cell0.image_data@
                &&& t.prompt matches Some(pr) && pr@ == p
                &&& t.model@ == self0.model_name@
                &&& cell1.processing
                &&& cell1.ai_response@ == msg_processing_prompt()
                &&& cell1.image_data == cell0.image_data
                &&& cell1.texture_loaded == cell0.texture_loaded
                &&& same_panel_and_windows(self0, self1)
                &&& self1.model_name == self0.model_name
            }
        },
    }
}

/// The sidebar application's own state: the animator, the chosen model,
/// the known windows and the transcript.  The shared cell is passed in
/// separately, as the caller holds it under its lock.
pub struct ScreenSnapApp {
    pub panel: PanelAnimator,
    pub model_name: Vec<u8>,
    pub window_list: Vec<Vec<u8>>,
    pub selected_window: Option<Vec<u8>>,
    pub chat_history: Vec<ChatMessage>,
}

impl ScreenSnapApp {
    /// Fresh state: closed panel pinned at the origin with the default
    /// slide duration, default model, nothing known yet.
    pub fn new() -> (r: Self)
        ensures
            r.panel.wf(),
            r.panel.is_idle(),
            !r.panel.is_open,
            r.panel.current_x == 0,
            r.panel.target_x == 0,
            r.panel.animation_start_x == 0,
            r.panel.animation_duration_ms == crate::panel::DEFAULT_ANIMATION_MS,
            !r.panel.layout_initialized,
            r.model_name@ == "llava:latest".spec_bytes(),
            r.window_list@.len() == 0,
            r.selected_window is None,
            r.chat_history@.len() == 0,
    {
        ScreenSnapApp {
            panel: PanelAnimator::new(),
            model_name: "llava:latest".as_bytes_vec(),
            window_list: Vec::new(),
            selected_window: None,
            chat_history: Vec::new(),
        }
    }

    /// Take a fresh window listing; when nothing was selected yet, the
    /// first listed window becomes the selection.
    pub fn refresh_window_list(&mut self, titles: Vec<Vec<u8>>)
        ensures
            final(self).window_list == titles,
            (titles@.len() > 0 && old(self).selected_window is None)
                ==> (final(self).selected_window matches Some(t) && t@ == titles@[0]@),
            !(titles@.len() > 0 && old(self).selected_window is None)
                ==> final(self).selected_window == old(self).selected_window,
            final(self).panel == old(self).panel,
            final(self).model_name == old(self).model_name,
            final(self).chat_history == old(self).chat_history,
    {
        let pick_first = titles.len() > 0 && self.selected_window.is_none();
        if pick_first {
            let first = titles[0].clone();
            self.selected_window = Some(first);
        }
        self.window_list = titles;
    }

    /// Take a fresh window listing and select the window for a query:
    /// the first title that contains the query, matched
    /// case-insensitively, or the query itself as a title when none
    /// does.  The returned title is what the caller should capture.
    pub fn select_window_for_query(&mut self, query: &[u8], titles: Vec<Vec<u8>>) -> (title: Vec<
        u8,
    >)
        ensures
            final(self).window_list == titles,
            final(self).selected_window matches Some(t) && t@ == title@,
            ({
                let found = exists|i: int|
                    0 <= i < titles@.len() && #[trigger] spec_title_matches(
                        titles@[i]@,
                        query@,
                    );
                if found {
                    exists|i: int|
                        {
                            &&& 0 <= i < titles@.len()
                            &&& #[trigger] spec_title_matches(titles@[i]@, query@)
                            &&& title@ == titles@[i]@
                            &&& forall|j: int|
                                0 <= j < i ==> !spec_title_matches(titles@[j]@, query@)
                        }
                } else {
                    title@ == query@
                }
            }),
            final(self).panel == old(self).panel,
            final(self).model_name == old(self).model_name,
            final(self).chat_history == old(self).chat_history,
    {
        let low_query = ascii_lower(query);
        let n = titles.len();
        let mut k: usize = 0;
        let mut chosen: Option<Vec<u8>> = None;
        while k < n && chosen.is_none()
            invariant
                0 <= k <= n,
                n == titles@.len(),
                low_query@ == spec_lower(query@),
                forall|j: int| 0 <= j < k ==> !spec_title_matches(titles@[j]@, query@),
                chosen matches Some(t) ==> k < n && spec_title_matches(titles@[k as int]@, query@)
                    && t@ == titles@[k as int]@,
            decreases n - k, (if chosen is None { 1int } else { 0int }),
        {
            let low_title = ascii_lower(titles[k].as_slice());
            if contains_sub(low_title.as_slice(), low_query.as_slice()) {
                let picked = titles[k].clone();
                proof {
                    assert(picked@ =~= titles@[k as int]@);
                }
                chosen = Some(picked);
            } else {
                k = k + 1;
            }
        }
        let title: Vec<u8> = match chosen {
            Some(t) => t,
            None => slice_to_vec(query),
        };
        self.selected_window = Some(title.clone());
        self.window_list = titles;
        title
    }

    /// Start a default-prompt analysis for the current image, as the
    /// sidebar's analyze control does: with no image the cell takes the
    /// capture-first message and no task starts; otherwise the cell is
    /// marked in flight and the task carries the image and model.
    pub fn analyze_image(&mut self, cell: &mut StateCell) -> (r: Option<AnalysisTask>)
        ensures
            old(cell).image_data@.len() == 0 ==> {
                &&& r is None
                &&& final(cell).ai_response@ == crate::cell::msg_capture_first()
                &&& final(cell).processing == old(cell).processing
            },
            old(cell).image_data@.len() > 0 ==> {
                &&& r matches Some(t)
                &&& t.image@ == old(cell).image_data@
                &&& t.prompt is None
                &&& t.model@ == old(self).model_name@
                &&& final(cell).processing
                &&& final(cell).ai_response@ == msg_processing()
            },
            final(cell).image_data == old(cell).image_data,
            final(cell).texture_loaded == old(cell).texture_loaded,
            *final(self) == *old(self),
    {
        match cell.analyze_begin() {
            Some(image) => Some(
                AnalysisTask { image, prompt: None, model: self.model_name.clone() },
            ),
            None => None,
        }
    }

    /// Start a custom-prompt analysis, as a plain chat line does.
    pub fn analyze_with_prompt(&mut self, cell: &mut StateCell, prompt: Vec<u8>) -> (r: Option<
        AnalysisTask,
    >)
        ensures
            old(cell).image_data@.len() == 0 ==> {
                &&& r is None
                &&& final(cell).ai_response@ == msg_capture_for_prompt()
                &&& final(cell).processing == old(cell).processing
            },
            old(cell).image_data@.len() > 0 ==> {
                &&& r matches Some(t)
                &&& t.image@ == old(cell).image_data@
                &&& t.prompt matches Some(p) && p@ == prompt@
                &&& t.model@ == old(self).model_name@
                &&& final(cell).processing
                &&& final(cell).ai_response@ == msg_processing_prompt()
            },
            final(cell).image_data == old(cell).image_data,
            final(cell).texture_loaded == old(cell).texture_loaded,
            *final(self) == *old(self),
    {
        match cell.analyze_with_prompt_begin() {
            Some(image) => Some(
                AnalysisTask { image, prompt: Some(prompt), model: self.model_name.clone() },
            ),
            None => None,
        }
    }

    /// Carry out one parsed command: update the owned state and the
    /// cell's result text, and answer with the background action the
    /// caller should start.
    pub fn apply_command(&mut self, cell: &mut StateCell, cmd: Command) -> (r: UserAction)
        ensures
            spec_dispatch(
                cmd_spec(cmd),
                *old(self),
                *final(self),
                *old(cell),
                *final(cell),
                r,
            ),
            cmd is Clear ==> final(self).chat_history@.len() == 0,
            !(cmd is Clear) ==> final(self).chat_history == old(self).chat_history,
    {
        match cmd {
            Command::Capture => UserAction::CaptureFullScreen,
            Command::Window(q) => {
                match q {
                    Some(query) => UserAction::CaptureWindowQuery(query),
                    None => {
                        cell.ai_response =
                            "Please specify a window name or part of it after /window (e.g., /window firefox)".as_bytes_vec();
                        UserAction::Idle
                    },
                }
            },
            Command::Model(m) => {
                match m {
                    Some(name) => {
                        let mut resp: Vec<u8> = "Model set to: ".as_bytes_vec();
                        push_all(&mut resp, name.as_slice());
                        self.model_name = name;
                        cell.ai_response = resp;
                        UserAction::Idle
                    },
                    None => {
                        let mut resp: Vec<u8> = "Current model: ".as_bytes_vec();
                        push_all(&mut resp, self.model_name.as_slice());
                        push_all(&mut resp, ". Usage: /model <model_name>".as_bytes());
                        cell.ai_response = resp;
                        UserAction::Idle
                    },
                }
            },
            Command::Analyze => {
                if cell.image_data.len() == 0 {
                    cell.ai_response =
                        "Please capture an image first using /capture or /window.".as_bytes_vec();
                    UserAction::Idle
                } else {
                    match self.analyze_image(cell) {
                        Some(t) => UserAction::Analyze(t),
                        None => UserAction::Idle,
                    }
                }
            },
            Command::Clear => {
                self.chat_history.clear();
                cell.clear_image_and_response();
                cell.ai_response = "Chat history and image cleared.".as_bytes_vec();
                UserAction::Idle
            },
            Command::Help => {
                cell.ai_response =
                    "Available commands:\n/capture - Capture full screen\n/window [name] - Capture a specific window (or part of name)\n/model [name] - Change AI model (e.g., /model llava:latest)\n/analyze - Analyze current image with default prompt\n/clear - Clear chat history and current image\n/help - Show this help message".as_bytes_vec();
                UserAction::Idle
            },
            Command::Unknown(t) => {
                let mut resp: Vec<u8> = "Unknown command: ".as_bytes_vec();
                push_all(&mut resp, t.as_slice());
                push_all(&mut resp, ". Type /help for available commands.".as_bytes());
                cell.ai_response = resp;
                UserAction::Idle
            },
            Command::Prompt(p) => {
                if cell.image_data.len() == 0 {
                    cell.ai_response =
                        "Please capture an image first before sending a prompt.".as_bytes_vec();
                    UserAction::Idle
                } else {
                    match self.analyze_with_prompt(cell, p) {
                        Some(t) => UserAction::Analyze(t),
                        None => UserAction::Idle,
                    }
                }
            },
        }
    }

    /// Interpret one line of chat input: parse it and carry the command
    /// out.
    pub fn handle_user_input(&mut self, cell: &mut StateCell, input: &[u8]) -> (r: UserAction)
        ensures
            spec_dispatch(
                spec_parse(input@),
                *old(self),
                *final(self),
                *old(cell),
                *final(cell),
                r,
            ),
            spec_parse(input@) is Clear ==> final(self).chat_history@.len() == 0,
            !(spec_parse(input@) is Clear) ==> final(self).chat_history == old(
                self,
            ).chat_history,
    {
        let cmd = parse_command(input);
        proof {
            assert(cmd_spec(cmd) == spec_parse(input@));
        }
        self.apply_command(cell, cmd)
    }

    /// Accept one submitted chat line, as the input box does: ignore a
    /// line that is empty after trimming; otherwise record it in the
    /// transcript as the user's message and interpret it.
    pub fn submit_input(&mut self, cell: &mut StateCell, input: &[u8], now_ms: u64) -> (r:
        UserAction)
        ensures
            spec_trim_spaces(input@).len() == 0 ==> r is Idle && *final(self) == *old(self)
                && *final(cell) == *old(cell),
            spec_trim_spaces(input@).len() > 0 ==> spec_dispatch(
                spec_parse(spec_trim_spaces(input@)),
                *old(self),
                *final(self),
                *old(cell),
                *final(cell),
                r,
            ),
            ({
                let t = spec_trim_spaces(input@);
                t.len() > 0 ==> match spec_parse(t) {
                    SpecCommand::Clear => final(self).chat_history@.len() == 0,
                    _ => {
                        &&& final(self).chat_history@.len() == old(self).chat_history@.len() + 1
                        &&& final(self).chat_history@[old(self).chat_history@.len() as int].text@
                            == t
                        &&& final(self).chat_history@[old(
                            self,
                        ).chat_history@.len() as int].is_user
                        &&& final(self).chat_history@[old(
                            self,
                        ).chat_history@.len() as int].timestamp_ms == now_ms
                    },
                }
            }),
    {
        let trimmed = trim_spaces(input);
        if trimmed.len() == 0 {
            return UserAction::Idle;
        }
        let message = ChatMessage { text: trimmed.clone(), is_user: true, timestamp_ms: now_ms };
        proof {
            assert(message.text@ =~= spec_trim_spaces(input@));
        }
        self.chat_history.push(message);
        let ghost mid = *self;
        let cmd = parse_command(trimmed.as_slice());
        let action = self.apply_command(cell, cmd);
        proof {
            assert(cmd_spec(cmd) == spec_parse(spec_trim_spaces(input@)));
            assert(mid.panel == old(self).panel && mid.model_name == old(self).model_name
                && mid.window_list == old(self).window_list && mid.selected_window == old(
                self,
            ).selected_window);
        }
        action
    }

    /// Absorb a completed response into the transcript, as the render
    /// loop does each frame: when the cell holds a finished response
    /// that is not already the latest transcript entry, it becomes an
    /// assistant entry and the cell's text is cleared.
    pub fn absorb_response(&mut self, cell: &mut StateCell, now_ms: u64) -> (appended: bool)
        ensures
            appended == (old(cell).ai_response@.len() > 0 && !old(cell).processing && (old(self).chat_history@.len() == 0 || old(self).chat_history@.last().text@ != old(cell).ai_response@ || old(self).chat_history@.last().is_user)),
            appended ==> {
                &&& final(self).chat_history@.len() == old(self).chat_history@.len() + 1
                &&& final(self).chat_history@.last().text@ == old(cell).ai_response@
                &&& !final(self).chat_history@.last().is_user
                &&& final(self).chat_history@.last().timestamp_ms == now_ms
                &&& final(cell).ai_response@.len() == 0
            },
            !appended ==> *final(self) == *old(self) && *final(cell) == *old(cell),
            final(cell).processing == old(cell).processing,
            final(cell).image_data == old(cell).image_data,
    {
        if cell.ai_response.len() == 0 {
            return false;
        }
        if cell.processing {
            return false;
        }
        let is_new = if self.chat_history.len() == 0 {
            true
        } else {
            let last = &self.chat_history[self.chat_history.len() - 1];
            !bytes_eq(last.text.as_slice(), cell.ai_response.as_slice()) || last.is_user
        };
        if !is_new {
            return false;
        }
        let text = cell.ai_response.clone();
        proof {
            assert(text@ =~= cell.ai_response@);
        }
        let message = ChatMessage { text, is_user: false, timestamp_ms: now_ms };
        self.chat_history.push(message);
        cell.ai_response.clear();
        true
    }
}

} // verus!
