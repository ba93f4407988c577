//! The state of the player's main menu: the page history, the ports on
//! offer and the ones selected, and the loaded song.
//!
//! Each frame the menu takes the current port lists and, while nothing is
//! selected yet, picks an output and an input: an output override (the
//! `NEOTHESIA_OUTPUT` setting) wins, then the configured port name, then the
//! first port. Reading the environment, the configuration and the port lists,
//! and connecting the chosen ports, are the caller's part.

use vstd::prelude::*;
use std::collections::VecDeque;

use crate::output_manager::{display_name_of, MidiPortInfo, OutputDescriptor};
use crate::song::Song;
use crate::text::{
    contains_chars, contains_text, lemma_lowercase_trim_ignores_uppercasing, lowercase_range_equals,
    to_ascii_lowercase, to_ascii_uppercase, trim, trimmed_bounds,
};

verus! {

/// A page of the menu.
#[derive(Debug, Clone, Copy, PartialEq, Eq, Structural)]
pub enum Page {
    Exit,
    Main,
    Settings,
    TrackSelection,
}

/// The page history after opening a page.
pub open spec fn pages_after_go_to(pages: Seq<Page>, page: Page) -> Seq<Page> {
    seq![page].add(pages)
}

/// The page history after going back: the last page leads to the exit page.
pub open spec fn pages_after_go_back(pages: Seq<Page>) -> Seq<Page> {
    if pages.len() == 1 {
        seq![Page::Exit].add(pages)
    } else {
        pages.drop_first()
    }
}

/// The page history, most recent first. It is never empty.
pub struct PageStack {
    pages: VecDeque<Page>,
}

impl View for PageStack {
    type V = Seq<Page>;

    closed spec fn view(&self) -> Seq<Page> {
        self.pages@
    }
}

impl PageStack {
    #[verifier::type_invariant]
    closed spec fn non_empty(&self) -> bool {
        self.pages@.len() > 0
    }

    /// A history that holds the main page.
    pub fn new() -> (stack: PageStack)
        ensures
            stack@ == seq![Page::Main],
    {
        let mut pages: VecDeque<Page> = VecDeque::new();
        pages.push_front(Page::Main);
        assert(pages@ =~= seq![Page::Main]);
        PageStack { pages }
    }

    /// The page on top.
    pub fn current(&self) -> (page: Page)
        ensures
            self@.len() > 0,
            page == self@[0],
    {
        proof {
            use_type_invariant(self);
        }
        self.pages[0]
    }

    /// The number of pages in the history.
    pub fn len(&self) -> (n: usize)
        ensures
            n == self@.len(),
            n > 0,
    {
        proof {
            use_type_invariant(self);
        }
        self.pages.len()
    }

    /// The history with one more page on top.
    pub fn pushed(self, page: Page) -> (stack: PageStack)
        ensures
            stack@ == pages_after_go_to(self@, page),
    {
        let mut pages = self.pages;
        pages.push_front(page);
        assert(pages@ =~= pages_after_go_to(self@, page));
        PageStack { pages }
    }

    /// The history after going back one page.
    pub fn popped(self) -> (stack: PageStack)
        ensures
            stack@ == pages_after_go_back(self@),
    {
        proof {
            use_type_invariant(&self);
        }
        let mut pages = self.pages;
        if pages.len() == 1 {
            pages.push_front(Page::Exit);
            assert(pages@ =~= pages_after_go_back(self@));
        } else {
            let _ = pages.pop_front();
            assert(pages@ =~= pages_after_go_back(self@));
        }
        PageStack { pages }
    }
}

/// The first position of `s` whose element satisfies `p`.
pub open spec fn is_first_where<A>(s: Seq<A>, p: spec_fn(A) -> bool, i: int) -> bool {
    &&& 0 <= i < s.len()
    &&& p(s[i])
    &&& forall|j: int| 0 <= j < i ==> !p(#[trigger] s[j])
}

/// The first position of `s` whose element satisfies `p`, if any.
pub open spec fn first_where<A>(s: Seq<A>, p: spec_fn(A) -> bool) -> Option<int> {
    if exists|i: int| is_first_where(s, p, i) {
        Some(choose|i: int| is_first_where(s, p, i))
    } else {
        None
    }
}

proof fn lemma_first_where_found<A>(s: Seq<A>, p: spec_fn(A) -> bool, i: int)
    requires
        is_first_where(s, p, i),
    ensures
        first_where(s, p) == Some(i),
{
    let j = choose|j: int| is_first_where(s, p, j);
    assert(is_first_where(s, p, j));
    if j < i {
        assert(!p(s[j]));
    } else if i < j {
        assert(!p(s[i]));
    }
}

proof fn lemma_first_where_none<A>(s: Seq<A>, p: spec_fn(A) -> bool)
    requires
        forall|j: int| 0 <= j < s.len() ==> !p(#[trigger] s[j]),
    ensures
        first_where(s, p) is None,
{
}

/// The element at the first position of `s` that satisfies `p`, if any.
pub open spec fn first_element_where<A>(s: Seq<A>, p: spec_fn(A) -> bool) -> Option<A> {
    match first_where(s, p) {
        Some(i) => Some(s[i]),
        None => None,
    }
}

/// The first element of a sequence, if any.
pub open spec fn first_of<A>(s: Seq<A>) -> Option<A> {
    if s.len() > 0 {
        Some(s[0])
    } else {
        None
    }
}

/// Whether an output override asks for no sound: `dummy`, `none`, `off`,
/// `no output`, `no-output` or `silent`, in any ASCII case and with any
/// surrounding whitespace.
pub open spec fn requests_dummy(value: Seq<char>) -> bool {
    let v = to_ascii_lowercase(trim(value));
    ||| v == "dummy"@
    ||| v == "none"@
    ||| v == "off"@
    ||| v == "no output"@
    ||| v == "no-output"@
    ||| v == "silent"@
}

/// Whether an output override asks for no sound.
pub fn env_output_requests_dummy(value: &str) -> (dummy: bool)
    ensures
        dummy == requests_dummy(value@),
{
    let (start, end) = trimmed_bounds(value);
    lowercase_range_equals(value, start, end, "dummy") || lowercase_range_equals(value, start, end, "none")
        || lowercase_range_equals(value, start, end, "off") || lowercase_range_equals(
        value,
        start,
        end,
        "no output",
    ) || lowercase_range_equals(value, start, end, "no-output") || lowercase_range_equals(
        value,
        start,
        end,
        "silent",
    )
}

/// Whether an output is a MIDI output whose name contains `filter`.
pub open spec fn output_matches_filter(output: OutputDescriptor, filter: Seq<char>) -> bool {
    match output {
        OutputDescriptor::MidiOut(info) => contains_chars(info.name@, filter),
        _ => false,
    }
}

/// The output an override picks, if it picks one.
pub open spec fn output_from_override(outputs: Seq<OutputDescriptor>, filter: Seq<char>) -> Option<OutputDescriptor> {
    if requests_dummy(filter) {
        Some(OutputDescriptor::DummyOutput)
    } else {
        first_element_where(outputs, |o: OutputDescriptor| output_matches_filter(o, filter))
    }
}

/// The output the configuration picks: the output of the configured name, or
/// else the first output; the silent output when nothing is configured.
pub open spec fn output_from_config(outputs: Seq<OutputDescriptor>, configured: Option<Seq<char>>) -> Option<OutputDescriptor> {
    match configured {
        Some(name) => match first_element_where(outputs, |o: OutputDescriptor| display_name_of(o) == name) {
            Some(o) => Some(o),
            None => first_of(outputs),
        },
        None => Some(OutputDescriptor::DummyOutput),
    }
}

/// The selected output after a frame: a selection once made is kept;
/// otherwise the override decides if it picks an output, and the
/// configuration decides if not.
pub open spec fn output_selection(
    previous: Option<OutputDescriptor>,
    outputs: Seq<OutputDescriptor>,
    override_filter: Option<Seq<char>>,
    configured: Option<Seq<char>>,
) -> Option<OutputDescriptor> {
    if previous is Some {
        previous
    } else {
        let picked = match override_filter {
            Some(filter) => output_from_override(outputs, filter),
            None => None,
        };
        if picked is Some {
            picked
        } else {
            output_from_config(outputs, configured)
        }
    }
}

/// The selected input after a frame: a selection once made is kept;
/// otherwise the input of the configured name, or else the first input.
pub open spec fn input_selection(
    previous: Option<MidiPortInfo>,
    inputs: Seq<MidiPortInfo>,
    configured: Option<Seq<char>>,
) -> Option<MidiPortInfo> {
    if previous is Some {
        previous
    } else {
        match first_element_where(inputs, |i: MidiPortInfo| configured == Some(i.name@)) {
            Some(i) => Some(i),
            None => first_of(inputs),
        }
    }
}

pub open spec fn text_of(s: Option<String>) -> Option<Seq<char>> {
    match s {
        Some(t) => Some(t@),
        None => None,
    }
}

fn find_output_by_filter(outputs: &Vec<OutputDescriptor>, filter: &str) -> (found: Option<usize>)
    ensures
        match found {
            Some(i) => first_where(outputs@, |o: OutputDescriptor| output_matches_filter(o, filter@)) == Some(i as int),
            None => first_where(outputs@, |o: OutputDescriptor| output_matches_filter(o, filter@)) is None,
        },
{
    let ghost p = |o: OutputDescriptor| output_matches_filter(o, filter@);
    let mut i: usize = 0;
    while i < outputs.len()
        invariant
            i <= outputs@.len(),
            p == (|o: OutputDescriptor| output_matches_filter(o, filter@)),
            forall|j: int| 0 <= j < i ==> !p(#[trigger] outputs@[j]),
        decreases outputs@.len() - i,
    {
        let hit = match &outputs[i] {
            OutputDescriptor::MidiOut(info) => contains_text(info.name.as_str(), filter),
            _ => false,
        };
        if hit {
            proof {
                lemma_first_where_found(outputs@, p, i as int);
            }
            return Some(i);
        }
        i = i + 1;
    }
    proof {
        lemma_first_where_none(outputs@, p);
    }
    None
}

fn find_output_by_name(outputs: &Vec<OutputDescriptor>, name: &String) -> (found: Option<usize>)
    ensures
        match found {
            Some(i) => first_where(outputs@, |o: OutputDescriptor| display_name_of(o) == name@) == Some(i as int),
            None => first_where(outputs@, |o: OutputDescriptor| display_name_of(o) == name@) is None,
        },
{
    let ghost p = |o: OutputDescriptor| display_name_of(o) == name@;
    let mut i: usize = 0;
    while i < outputs.len()
        invariant
            i <= outputs@.len(),
            p == (|o: OutputDescriptor| display_name_of(o) == name@),
            forall|j: int| 0 <= j < i ==> !p(#[trigger] outputs@[j]),
        decreases outputs@.len() - i,
    {
        let shown = outputs[i].display_name();
        if shown == *name {
            proof {
                lemma_first_where_found(outputs@, p, i as int);
            }
            return Some(i);
        }
        i = i + 1;
    }
    proof {
        lemma_first_where_none(outputs@, p);
    }
    None
}

fn find_input_by_name(inputs: &Vec<MidiPortInfo>, configured: &Option<String>) -> (found: Option<usize>)
    ensures
        match found {
            Some(i) => first_where(inputs@, |i: MidiPortInfo| text_of(*configured) == Some(i.name@)) == Some(i as int),
            None => first_where(inputs@, |i: MidiPortInfo| text_of(*configured) == Some(i.name@)) is None,
        },
{
    let ghost p = |i: MidiPortInfo| text_of(*configured) == Some(i.name@);
    let mut k: usize = 0;
    while k < inputs.len()
        invariant
            k <= inputs@.len(),
            p == (|i: MidiPortInfo| text_of(*configured) == Some(i.name@)),
            forall|j: int| 0 <= j < k ==> !p(#[trigger] inputs@[j]),
        decreases inputs@.len() - k,
    {
        let hit = match configured {
            Some(name) => inputs[k].name == *name,
            None => false,
        };
        if hit {
            proof {
                lemma_first_where_found(inputs@, p, k as int);
            }
            return Some(k);
        }
        k = k + 1;
    }
    proof {
        lemma_first_where_none(inputs@, p);
    }
    None
}

/// The state of the main menu.
pub struct UiState {
    pub outputs: Vec<OutputDescriptor>,
    pub selected_output: Option<OutputDescriptor>,
    pub inputs: Vec<MidiPortInfo>,
    pub selected_input: Option<MidiPortInfo>,
    pub is_loading: bool,
    pub song: Option<Song>,
    pub page_stack: PageStack,
}

impl UiState {
    /// The page history, most recent first.
    pub open spec fn pages(&self) -> Seq<Page> {
        self.page_stack@
    }

    /// A menu on its main page, with nothing listed or selected yet.
    pub fn new(song: Option<Song>) -> (state: UiState)
        ensures
            state.pages() == seq![Page::Main],
            state.outputs@.len() == 0,
            state.selected_output is None,
            state.inputs@.len() == 0,
            state.selected_input is None,
            !state.is_loading,
            state.song == song,
    {
        UiState {
            outputs: Vec::new(),
            selected_output: None,
            inputs: Vec::new(),
            selected_input: None,
            is_loading: false,
            song,
            page_stack: PageStack::new(),
        }
    }

    /// The loaded song, if any.
    pub fn song(&self) -> (song: Option<&Song>)
        ensures
            match song {
                Some(s) => self.song == Some(*s),
                None => self.song is None,
            },
    {
        self.song.as_ref()
    }

    /// Whether a song is being loaded.
    pub fn is_loading(&self) -> (loading: bool)
        ensures
            loading == self.is_loading,
    {
        self.is_loading
    }

    /// The page shown: the most recent one.
    pub fn current(&self) -> (page: Page)
        ensures
            self.pages().len() > 0,
            page == self.pages()[0],
    {
        self.page_stack.current()
    }

    /// Open a page on top of the current one.
    pub fn go_to(&mut self, page: Page)
        ensures
            final(self).pages() == pages_after_go_to(old(self).pages(), page),
            final(self).outputs == old(self).outputs,
            final(self).selected_output == old(self).selected_output,
            final(self).inputs == old(self).inputs,
            final(self).selected_input == old(self).selected_input,
            final(self).is_loading == old(self).is_loading,
            final(self).song == old(self).song,
    {
        let mut stack = PageStack::new();
        std::mem::swap(&mut stack, &mut self.page_stack);
        self.page_stack = stack.pushed(page);
    }

    /// Go back one page; going back from the last page opens the exit page.
    pub fn go_back(&mut self)
        ensures
            final(self).pages() == pages_after_go_back(old(self).pages()),
            final(self).outputs == old(self).outputs,
            final(self).selected_output == old(self).selected_output,
            final(self).inputs == old(self).inputs,
            final(self).selected_input == old(self).selected_input,
            final(self).is_loading == old(self).is_loading,
            final(self).song == old(self).song,
    {
        let mut stack = PageStack::new();
        std::mem::swap(&mut stack, &mut self.page_stack);
        self.page_stack = stack.popped();
    }

    /// Take one frame's port lists and settings: keep the lists, and pick an
    /// output and an input if none is selected yet.
    ///
    /// `output_override` is the `NEOTHESIA_OUTPUT` setting: a request for no
    /// sound selects the silent output, any other text selects the first MIDI
    /// output whose name contains it. `configured_output` and
    /// `configured_input` are the port names saved in the configuration.
    pub fn tick(
        &mut self,
        outputs: Vec<OutputDescriptor>,
        inputs: Vec<MidiPortInfo>,
        output_override: Option<String>,
        configured_output: Option<String>,
        configured_input: Option<String>,
    )
        ensures
            final(self).outputs@ == outputs@,
            final(self).inputs@ == inputs@,
            final(self).selected_output == output_selection(
                old(self).selected_output,
                outputs@,
                text_of(output_override),
                text_of(configured_output),
            ),
            final(self).selected_input == input_selection(
                old(self).selected_input,
                inputs@,
                text_of(configured_input),
            ),
            final(self).is_loading == old(self).is_loading,
            final(self).song == old(self).song,
            final(self).pages() == old(self).pages(),
    {
        self.outputs = outputs;
        self.inputs = inputs;

        if self.selected_output.is_none() {
            match &output_override {
                Some(filter) => {
                    if env_output_requests_dummy(filter.as_str()) {
                        self.selected_output = Some(OutputDescriptor::DummyOutput);
                    } else {
                        match find_output_by_filter(&self.outputs, filter.as_str()) {
                            Some(i) => {
                                self.selected_output = Some(self.outputs[i].clone());
                            },
                            None => {},
                        }
                    }
                },
                None => {},
            }
            if self.selected_output.is_none() {
                match &configured_output {
                    Some(name) => {
                        match find_output_by_name(&self.outputs, name) {
                            Some(i) => {
                                self.selected_output = Some(self.outputs[i].clone());
                            },
                            None => {
                                if self.outputs.len() > 0 {
                                    self.selected_output = Some(self.outputs[0].clone());
                                }
                            },
                        }
                    },
                    None => {
                        self.selected_output = Some(OutputDescriptor::DummyOutput);
                    },
                }
            }
        }

        if self.selected_input.is_none() {
            match find_input_by_name(&self.inputs, &configured_input) {
                Some(k) => {
                    self.selected_input = Some(self.inputs[k].clone());
                },
                None => {
                    if self.inputs.len() > 0 {
                        self.selected_input = Some(self.inputs[0].clone());
                    }
                },
            }
        }
    }
}

/// The ports to connect before playing.
#[derive(Debug, PartialEq, Eq)]
pub struct IoPlan {
    /// The output to connect, if one is selected.
    pub output: Option<OutputDescriptor>,
    /// The input to connect, if one is selected.
    pub input: Option<MidiPortInfo>,
}

/// The output to connect: the selected one, except that the built-in
/// synthesizer is connected with the configured sound font.
pub open spec fn planned_output(selected: Option<OutputDescriptor>, soundfont: Option<String>) -> Option<OutputDescriptor> {
    match selected {
        Some(OutputDescriptor::Synth(_)) => Some(OutputDescriptor::Synth(soundfont)),
        other => other,
    }
}

/// The ports to connect for the menu's current selection.
pub fn connect_io_plan(data: &UiState, soundfont: Option<String>) -> (plan: IoPlan)
    ensures
        plan.output == planned_output(data.selected_output, soundfont),
        plan.input == data.selected_input,
{
    let output = match &data.selected_output {
        Some(OutputDescriptor::Synth(_)) => Some(OutputDescriptor::Synth(soundfont)),
        Some(other) => Some(other.clone()),
        None => None,
    };
    let input = match &data.selected_input {
        Some(port) => Some(port.clone()),
        None => None,
    };
    IoPlan { output, input }
}

/// A request to play the loaded song.
#[derive(Debug, PartialEq, Eq)]
pub struct PlayRequest {
    pub io: IoPlan,
    pub song: Song,
}

/// A request for free play, with the loaded song if there is one.
#[derive(Debug, PartialEq, Eq)]
pub struct FreePlayRequest {
    pub io: IoPlan,
    pub song: Option<Song>,
}

/// Play the loaded song: connect the selected ports and start. Without a
/// loaded song nothing happens.
pub fn play(data: &UiState, soundfont: Option<String>) -> (request: Option<PlayRequest>)
    ensures
        request is Some <==> data.song is Some,
        request matches Some(r) ==> {
            &&& r.song@ == data.song->0@
            &&& r.io.output == planned_output(data.selected_output, soundfont)
            &&& r.io.input == data.selected_input
        },
{
    match &data.song {
        Some(song) => {
            let io = connect_io_plan(data, soundfont);
            Some(PlayRequest { io, song: song.clone() })
        },
        None => None,
    }
}

/// Start free play: connect the selected ports, and pass on the loaded song
/// if there is one.
pub fn freeplay(data: &UiState, soundfont: Option<String>) -> (request: FreePlayRequest)
    ensures
        request.io.output == planned_output(data.selected_output, soundfont),
        request.io.input == data.selected_input,
        request.song is Some <==> data.song is Some,
        request.song matches Some(s) ==> s@ == data.song->0@,
{
    let io = connect_io_plan(data, soundfont);
    let song = match &data.song {
        Some(s) => Some(s.clone()),
        None => None,
    };
    FreePlayRequest { io, song }
}

/// Going back right after opening a page returns to the history as it was,
/// and the opened page is the one shown in between.
pub proof fn lemma_go_back_undoes_go_to(pages: Seq<Page>, page: Page)
    requires
        pages.len() > 0,
    ensures
        pages_after_go_to(pages, page)[0] == page,
        pages_after_go_back(pages_after_go_to(pages, page)) == pages,
{
    assert(pages_after_go_to(pages, page).drop_first() =~= pages);
}

/// The page history is never empty, whatever is opened or left; going back
/// from the only page shows the exit page.
pub proof fn lemma_page_history_never_empty(pages: Seq<Page>, page: Page)
    requires
        pages.len() > 0,
    ensures
        pages_after_go_to(pages, page).len() > 0,
        pages_after_go_back(pages).len() > 0,
        pages.len() == 1 ==> pages_after_go_back(pages)[0] == Page::Exit,
{
}

/// Whether an override asks for no sound does not depend on ASCII case.
pub proof fn lemma_requests_dummy_ignores_case(value: Seq<char>)
    ensures
        requests_dummy(to_ascii_uppercase(value)) == requests_dummy(value),
{
    lemma_lowercase_trim_ignores_uppercasing(value);
}

/// An override that asks for no sound selects the silent output whenever no
/// output is selected yet, whatever the port list and the configuration.
pub proof fn lemma_dummy_override_selects_silent_output(
    outputs: Seq<OutputDescriptor>,
    filter: Seq<char>,
    configured: Option<Seq<char>>,
)
    requires
        requests_dummy(filter),
    ensures
        output_selection(None, outputs, Some(filter), configured) == Some(OutputDescriptor::DummyOutput),
{
}

/// An override that names a MIDI output wins over the configuration.
pub proof fn lemma_override_match_wins_over_config(
    outputs: Seq<OutputDescriptor>,
    filter: Seq<char>,
    configured: Option<Seq<char>>,
    i: int,
)
    requires
        !requests_dummy(filter),
        is_first_where(outputs, |o: OutputDescriptor| output_matches_filter(o, filter), i),
    ensures
        output_selection(None, outputs, Some(filter), configured) == Some(outputs[i]),
{
    lemma_first_where_found(outputs, |o: OutputDescriptor| output_matches_filter(o, filter), i);
}

/// A selection once made is kept by later frames.
pub proof fn lemma_selection_is_kept(
    output: OutputDescriptor,
    input: MidiPortInfo,
    outputs: Seq<OutputDescriptor>,
    inputs: Seq<MidiPortInfo>,
    override_filter: Option<Seq<char>>,
    configured_output: Option<Seq<char>>,
    configured_input: Option<Seq<char>>,
)
    ensures
        output_selection(Some(output), outputs, override_filter, configured_output) == Some(output),
        input_selection(Some(input), inputs, configured_input) == Some(input),
{
}

/// A sequence with an element that satisfies `p` has a first such element.
proof fn lemma_some_first_match<A>(s: Seq<A>, p: spec_fn(A) -> bool, j: int)
    requires
        0 <= j < s.len(),
        p(s[j]),
    ensures
        exists|i: int| is_first_where(s, p, i),
    decreases j,
{
    if exists|k: int| 0 <= k < j && p(#[trigger] s[k]) {
        let k = choose|k: int| 0 <= k < j && p(#[trigger] s[k]);
        lemma_some_first_match(s, p, k);
    } else {
        assert(is_first_where(s, p, j));
    }
}

/// An override that asks for silence picks the silent output. Any other
/// override only ever picks a MIDI output: the first one whose port name
/// contains the filter, and nothing when no port name does, whatever the
/// other outputs are called.
pub proof fn lemma_override_picks_only_midi_outputs(outputs: Seq<OutputDescriptor>, filter: Seq<char>)
    ensures
        requests_dummy(filter) ==> output_from_override(outputs, filter) == Some(OutputDescriptor::DummyOutput),
        !requests_dummy(filter) ==> (output_from_override(outputs, filter) matches Some(o) ==> exists|i: int|
            0 <= i < outputs.len() && #[trigger] outputs[i] == o && (o matches OutputDescriptor::MidiOut(info)
                && contains_chars(info.name@, filter)) && forall|j: int| 0 <= j < i ==> !(#[trigger] outputs[j] matches OutputDescriptor::MidiOut(info)
                && contains_chars(info.name@, filter))),
        !requests_dummy(filter) ==> (output_from_override(outputs, filter) is None <==> forall|j: int|
            0 <= j < outputs.len() ==> !(#[trigger] outputs[j] matches OutputDescriptor::MidiOut(info) && contains_chars(
                info.name@,
                filter,
            ))),
{
    let p = |o: OutputDescriptor| output_matches_filter(o, filter);
    if !requests_dummy(filter) {
        if exists|i: int| is_first_where(outputs, p, i) {
            let i = choose|i: int| is_first_where(outputs, p, i);
            assert(is_first_where(outputs, p, i));
            assert(output_from_override(outputs, filter) == Some(outputs[i]));
            assert(p(outputs[i]));
            assert forall|j: int| 0 <= j < i implies !(#[trigger] outputs[j] matches OutputDescriptor::MidiOut(info)
                && contains_chars(info.name@, filter)) by {
                assert(!p(outputs[j]));
            }
        } else {
            assert forall|j: int| 0 <= j < outputs.len() implies !(#[trigger] outputs[j] matches OutputDescriptor::MidiOut(info)
                && contains_chars(info.name@, filter)) by {
                if p(outputs[j]) {
                    lemma_some_first_match(outputs, p, j);
                }
            }
        }
    }
}

/// Without a configured output the configuration picks the silent output.
/// With one, it picks the first output whose display name is the configured
/// name, and when none has that name, the first output (nothing when there
/// are no outputs).
pub proof fn lemma_config_picks_named_output(outputs: Seq<OutputDescriptor>, configured: Option<Seq<char>>)
    ensures
        configured is None ==> output_from_config(outputs, configured) == Some(OutputDescriptor::DummyOutput),
        configured matches Some(name) ==> {
            ||| exists|i: int|
                0 <= i < outputs.len() && display_name_of(#[trigger] outputs[i]) == name
                    && output_from_config(outputs, configured) == Some(outputs[i])
                    && forall|j: int| 0 <= j < i ==> display_name_of(#[trigger] outputs[j]) != name
            ||| (forall|j: int| 0 <= j < outputs.len() ==> display_name_of(#[trigger] outputs[j]) != name)
                && output_from_config(outputs, configured) == (if outputs.len() > 0 {
                    Some(outputs[0])
                } else {
                    None
                })
        },
{
    if let Some(name) = configured {
        let p = |o: OutputDescriptor| display_name_of(o) == name;
        if exists|i: int| is_first_where(outputs, p, i) {
            let i = choose|i: int| is_first_where(outputs, p, i);
            assert(is_first_where(outputs, p, i));
            assert forall|j: int| 0 <= j < i implies display_name_of(#[trigger] outputs[j]) != name by {
                assert(!p(outputs[j]));
            }
        } else {
            assert forall|j: int| 0 <= j < outputs.len() implies display_name_of(#[trigger] outputs[j]) != name by {
                if p(outputs[j]) {
                    lemma_some_first_match(outputs, p, j);
                }
            }
        }
    }
}

/// Unless an input is already selected, the selection is the first input
/// whose name is the configured one, or else the first input (nothing when
/// there are none).
pub proof fn lemma_input_picks_named_port(inputs: Seq<MidiPortInfo>, configured: Option<Seq<char>>)
    ensures
        ({
            ||| exists|i: int|
                0 <= i < inputs.len() && configured == Some((#[trigger] inputs[i]).name@)
                    && input_selection(None, inputs, configured) == Some(inputs[i])
                    && forall|j: int| 0 <= j < i ==> configured != Some((#[trigger] inputs[j]).name@)
            ||| (forall|j: int| 0 <= j < inputs.len() ==> configured != Some((#[trigger] inputs[j]).name@))
                && input_selection(None, inputs, configured) == (if inputs.len() > 0 {
                    Some(inputs[0])
                } else {
                    None
                })
        }),
{
    let p = |i: MidiPortInfo| configured == Some(i.name@);
    if exists|i: int| is_first_where(inputs, p, i) {
        let i = choose|i: int| is_first_where(inputs, p, i);
        assert(is_first_where(inputs, p, i));
        assert forall|j: int| 0 <= j < i implies configured != Some((#[trigger] inputs[j]).name@) by {
            assert(!p(inputs[j]));
        }
    } else {
        assert forall|j: int| 0 <= j < inputs.len() implies configured != Some((#[trigger] inputs[j]).name@) by {
            if p(inputs[j]) {
                lemma_some_first_match(inputs, p, j);
            }
        }
    }
}

/// The output connected is the selected one, except that the built-in
/// synthesizer gets the configured sound font; nothing is connected when
/// nothing is selected.
pub proof fn lemma_planned_output_keeps_selection(selected: Option<OutputDescriptor>, soundfont: Option<String>)
    ensures
        planned_output(selected, soundfont) is None <==> selected is None,
        selected matches Some(OutputDescriptor::Synth(_)) ==> planned_output(selected, soundfont) == Some(
            OutputDescriptor::Synth(soundfont),
        ),
        !(selected matches Some(OutputDescriptor::Synth(_))) ==> planned_output(selected, soundfont) == selected,
{
}

} // verus!
