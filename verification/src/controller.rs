//! The controller: what a key press means, what has to be read before it can
//! be handled, and what it does to the stack.

use vstd::prelude::*;
use crate::config::Config;
use crate::entry::{Entry, EntryView};
use crate::stack::{
    enter_directory, exit_directory, lemma_ascended_wf, lemma_descended_wf, lemma_moved_wf, reread_view,
    DirectoryStack, NavError, StackView,
};
use crate::text::{joined, texts_of};

verus! {

/// The keys that the browser tells apart.
#[derive(Clone, Copy, Debug, PartialEq, Eq, Structural)]
pub enum KeyCode {
    Left,
    Right,
    Up,
    Down,
    Esc,
    /// Any other key.
    Other,
}

/// A key event as the terminal reports it, reduced to what the browser
/// reads.
#[derive(Clone, Copy, Debug, PartialEq, Eq, Structural)]
pub struct KeyPress {
    /// The key.
    pub code: KeyCode,
    /// No modifier key was held.
    pub unmodified: bool,
    /// The key went down; it was neither released nor repeated.
    pub pressed: bool,
}

/// What the user asks of the browser.
#[derive(Clone, Copy, Debug, PartialEq, Eq, Structural)]
pub enum Input {
    Up,
    Down,
    Left,
    Right,
    Quit,
    /// Anything else; it changes nothing.
    Other,
}

/// What the caller does after an input was handled.
#[derive(Clone, Copy, Debug, PartialEq, Eq, Structural)]
pub enum Action {
    /// Draw the frame again and wait for the next key.
    Redraw,
    /// Draw the frame again, tell the user why the move did not happen, and
    /// wait for the next key.
    Report(NavError),
    /// Stop: the browser is done and holds the chosen path.
    Finish,
}

/// What the caller has to read before it hands an input over.
#[derive(Debug)]
pub enum Request {
    /// Nothing.
    Nothing,
    /// The listing of the directory with these names on its path.
    List(Vec<String>),
}

/// What a [`Request`] stands for.
pub enum RequestView {
    Nothing,
    List(Seq<Seq<char>>),
}

impl View for Request {
    type V = RequestView;

    open spec fn view(&self) -> RequestView {
        match self {
            Request::Nothing => RequestView::Nothing,
            Request::List(names) => RequestView::List(texts_of(names@)),
        }
    }
}

/// Whether the browser still takes input.
#[derive(Debug)]
pub enum Mode {
    /// The browser takes input.
    Browsing,
    /// The user has quit; this is the path of the directory that was
    /// focused then.
    Done(String),
}

/// What a [`Mode`] stands for.
pub enum ModeView {
    Browsing,
    Done(Seq<char>),
}

impl View for Mode {
    type V = ModeView;

    open spec fn view(&self) -> ModeView {
        match self {
            Mode::Browsing => ModeView::Browsing,
            Mode::Done(path) => ModeView::Done(path@),
        }
    }
}

/// The browser: the stack, the limits it works under, and its mode.
#[derive(Debug)]
pub struct Browser {
    pub stack: DirectoryStack,
    pub config: Config,
    pub mode: Mode,
}

/// What a [`Browser`] stands for.
pub struct BrowserView {
    pub stack: StackView,
    pub config: Config,
    pub mode: ModeView,
}

impl View for Browser {
    type V = BrowserView;

    open spec fn view(&self) -> BrowserView {
        BrowserView { stack: self.stack@, config: self.config, mode: self.mode@ }
    }
}

/// What a key event means: an arrow key moves, escape quits, and only a key
/// that went down with no modifier held counts.
pub open spec fn input_of(key: KeyPress) -> Input {
    if !key.unmodified || !key.pressed {
        Input::Other
    } else {
        match key.code {
            KeyCode::Left => Input::Left,
            KeyCode::Right => Input::Right,
            KeyCode::Up => Input::Up,
            KeyCode::Down => Input::Down,
            KeyCode::Esc => Input::Quit,
            KeyCode::Other => Input::Other,
        }
    }
}

impl BrowserView {
    /// The browser keeps its rules: its stack keeps those of a stack.
    pub open spec fn wf(self) -> bool {
        self.stack.wf(self.config)
    }

    /// The name of the entry that a move to the right enters.
    pub open spec fn target(self) -> Seq<char> {
        self.stack.focused().entries[self.stack.focused().selected].name
    }

    /// What has to be read before `input` is handled: the selected
    /// directory before a move to the right, the directory above the only
    /// pane before a move to the left, nothing otherwise.
    pub open spec fn request(self, input: Input) -> RequestView {
        if self.mode is Done {
            RequestView::Nothing
        } else if input == Input::Right && self.stack.can_descend() {
            RequestView::List(self.stack.names().push(self.target()))
        } else if input == Input::Left && self.stack.needs_ancestor() {
            RequestView::List(self.stack.ancestors)
        } else {
            RequestView::Nothing
        }
    }

    /// The browser after `input`. `listing` is what the request for this
    /// input brought, and `None` where the read failed or nothing was asked.
    pub open spec fn after(self, input: Input, listing: Option<Seq<EntryView>>) -> BrowserView {
        if self.mode is Done {
            self
        } else {
            match input {
                Input::Up => BrowserView { stack: self.stack.moved(-1, self.config), ..self },
                Input::Down => BrowserView { stack: self.stack.moved(1, self.config), ..self },
                Input::Right => if self.stack.can_descend() && listing is Some {
                    BrowserView { stack: self.stack.descended(self.target(), listing->0, self.config), ..self }
                } else {
                    self
                },
                Input::Left => BrowserView { stack: self.stack.ascended(listing, self.config), ..self },
                Input::Quit => BrowserView { mode: ModeView::Done(joined(self.stack.names(), "/"@)), ..self },
                Input::Other => self,
            }
        }
    }

    /// What the caller does after `input`: it stops once the browser is
    /// done, reports a directory that could not be read, and draws again in
    /// every other case.
    pub open spec fn action(self, input: Input, listing: Option<Seq<EntryView>>) -> Action {
        if self.mode is Done || input == Input::Quit {
            Action::Finish
        } else if input == Input::Right && self.stack.can_descend() && listing is None {
            Action::Report(NavError::ReadError)
        } else if input == Input::Left && self.stack.needs_ancestor() && listing is None {
            Action::Report(NavError::ReadError)
        } else {
            Action::Redraw
        }
    }
}

/// A move to the right on a plain file changes nothing, whatever listing
/// comes with it.
pub proof fn lemma_right_on_file(browser: BrowserView, listing: Option<Seq<EntryView>>)
    requires
        !browser.stack.can_descend(),
    ensures
        browser.after(Input::Right, listing) == browser,
        browser.request(Input::Right) == RequestView::Nothing,
        !(browser.mode is Done) ==> browser.action(Input::Right, listing) == Action::Redraw,
{
}

/// Every input leaves a browser that keeps its rules, and a browser that is
/// done stays as it is.
pub proof fn lemma_after_wf(browser: BrowserView, input: Input, listing: Option<Seq<EntryView>>)
    requires
        browser.wf(),
    ensures
        browser.after(input, listing).wf(),
        browser.mode is Done ==> browser.after(input, listing) == browser,
        browser.after(input, listing).mode is Done <==> browser.mode is Done || input == Input::Quit,
{
    lemma_moved_wf(browser.stack, -1, browser.config);
    lemma_moved_wf(browser.stack, 1, browser.config);
    lemma_ascended_wf(browser.stack, listing, browser.config);
    if listing is Some {
        lemma_descended_wf(browser.stack, browser.target(), listing->0, browser.config);
    }
}

/// Decodes a key event.
pub fn decode_key(key: KeyPress) -> (input: Input)
    ensures
        input == input_of(key),
{
    if !key.unmodified || !key.pressed {
        return Input::Other;
    }
    match key.code {
        KeyCode::Left => Input::Left,
        KeyCode::Right => Input::Right,
        KeyCode::Up => Input::Up,
        KeyCode::Down => Input::Down,
        KeyCode::Esc => Input::Quit,
        KeyCode::Other => Input::Other,
    }
}

impl Browser {
    /// The browser keeps its rules; see [`BrowserView::wf`].
    pub open spec fn wf(&self) -> bool {
        self@.wf()
    }

    /// Starts browsing on a stack.
    pub fn new(stack: DirectoryStack, config: Config) -> (browser: Self)
        ensures
            browser@ == (BrowserView { stack: stack@, config: config, mode: ModeView::Browsing }),
    {
        Browser { stack: stack, config: config, mode: Mode::Browsing }
    }

    /// Tells whether the user has quit.
    pub fn is_done(&self) -> (done: bool)
        ensures
            done == (self@.mode is Done),
    {
        match &self.mode {
            Mode::Browsing => false,
            Mode::Done(_) => true,
        }
    }

    /// Says what has to be read before `input` is handled; see
    /// [`BrowserView::request`].
    pub fn plan(&self, input: Input) -> (request: Request)
        ensures
            request@ == self@.request(input),
    {
        if self.is_done() {
            return Request::Nothing;
        }
        match input {
            Input::Right => match self.stack.descend_target() {
                Some(name) => {
                    let mut names = self.stack.path_names();
                    assert(texts_of(names@.push(name)) =~= texts_of(names@).push(name@));
                    names.push(name);
                    Request::List(names)
                },
                None => Request::Nothing,
            },
            Input::Left => if self.stack.needs_ancestor() {
                Request::List(self.stack.ancestors.clone())
            } else {
                Request::Nothing
            },
            _ => Request::Nothing,
        }
    }

    /// Handles one input; see [`BrowserView::after`] and
    /// [`BrowserView::action`]. `listing` is what the request for this input
    /// brought, and `None` where the read failed or nothing was asked.
    pub fn handle_input(&mut self, input: Input, listing: Option<Vec<Entry>>) -> (action: Action)
        ensures
            final(self)@ == old(self)@.after(input, reread_view(listing)),
            action == old(self)@.action(input, reread_view(listing)),
            old(self).wf() ==> final(self).wf(),
    {
        proof {
            if old(self).wf() {
                lemma_after_wf(old(self)@, input, reread_view(listing));
            }
        }
        if self.is_done() {
            return Action::Finish;
        }
        match input {
            Input::Up => {
                self.stack.move_selection(-1, &self.config);
                Action::Redraw
            },
            Input::Down => {
                self.stack.move_selection(1, &self.config);
                Action::Redraw
            },
            Input::Right => match self.stack.descend_target() {
                Some(name) => match enter_directory(&mut self.stack, name, listing, &self.config) {
                    Ok(_) => Action::Redraw,
                    Err(error) => Action::Report(error),
                },
                None => Action::Redraw,
            },
            Input::Left => match exit_directory(&mut self.stack, listing, &self.config) {
                Ok(_) => Action::Redraw,
                Err(error) => Action::Report(error),
            },
            Input::Quit => {
                self.mode = Mode::Done(self.stack.current_path());
                Action::Finish
            },
            Input::Other => Action::Redraw,
        }
    }
}

} // verus!
