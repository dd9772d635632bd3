//! Bookkeeping of GPU timing sections: a pool of query pairs, the section
//! being recorded, and the sections whose results are awaited. The caller
//! issues the queries themselves, as the returned commands say.
use vstd::prelude::*;

verus! {

/// A named pair of GPU queries: elapsed time and primitives generated.
pub struct Section {
    pub name: String,
    pub timer_handle: u32,
    pub geo_handle: u32,
}

/// Whether sections are being recorded, or the frame's results are awaited.
#[derive(Clone, Copy, Debug, PartialEq, Eq, Structural)]
pub enum State {
    Recording,
    Waiting,
}

/// The handles of a section's two queries.
#[derive(Clone, Copy, Debug, PartialEq, Eq, Structural)]
pub struct QueryPair {
    pub timer_handle: u32,
    pub geo_handle: u32,
}

/// The queries that the caller must issue after `start_section`.
#[derive(Clone, Copy, Debug, PartialEq, Eq, Structural)]
pub struct SectionCommands {
    /// End the queries of the section that was open.
    pub end_queries: bool,
    /// Begin queries on these handles.
    pub begin_queries: Option<QueryPair>,
}

/// The instrumenter's state as mathematical values.
pub struct InstrumenterView {
    pub section_cache: Seq<Section>,
    pub recording_section: Option<Section>,
    pub waiting_sections: Seq<Section>,
    pub state: State,
}

pub struct Instrumenter {
    section_cache: Vec<Section>,
    recording_section: Option<Section>,
    waiting_sections: Vec<Section>,
    state: State,
}

impl View for Instrumenter {
    type V = InstrumenterView;

    closed spec fn view(&self) -> InstrumenterView {
        InstrumenterView {
            section_cache: self.section_cache@,
            recording_section: self.recording_section,
            waiting_sections: self.waiting_sections@,
            state: self.state,
        }
    }
}

impl Instrumenter {
    /// A recording instrumenter whose pool holds `section_cache`.
    pub fn new(section_cache: Vec<Section>) -> (r: Instrumenter)
        ensures
            r@.section_cache == section_cache@,
            r@.recording_section is None,
            r@.waiting_sections == Seq::<Section>::empty(),
            r@.state == State::Recording,
    {
        Instrumenter {
            section_cache,
            recording_section: None,
            waiting_sections: Vec::new(),
            state: State::Recording,
        }
    }

    /// Moves the open section, if any, to the awaited ones; returns whether
    /// one was open.
    fn close_open_section(&mut self) -> (r: bool)
        ensures
            r == old(self)@.recording_section is Some,
            final(self)@.recording_section is None,
            final(self)@.waiting_sections == match old(self)@.recording_section {
                Some(s) => old(self)@.waiting_sections.push(s),
                None => old(self)@.waiting_sections,
            },
            final(self)@.section_cache == old(self)@.section_cache,
            final(self)@.state == old(self)@.state,
    {
        match self.recording_section.take() {
            Some(section) => {
                self.waiting_sections.push(section);
                true
            },
            None => false,
        }
    }

    /// Whether sections are being recorded or results are awaited.
    pub fn state(&self) -> (r: State)
        ensures
            r == self@.state,
    {
        self.state
    }

    /// How many query pairs the pool holds.
    pub fn free_sections(&self) -> (r: usize)
        ensures
            r == self@.section_cache.len(),
    {
        self.section_cache.len()
    }

    /// The section being recorded, if any.
    pub fn recording_section(&self) -> (r: &Option<Section>)
        ensures
            *r == self@.recording_section,
    {
        &self.recording_section
    }

    /// Opens a section named `name` on a pair of queries from the pool, first
    /// closing the section that was open. Does nothing while results are
    /// awaited. While recording, the pool must not be empty.
    pub fn start_section(&mut self, name: &str) -> (r: SectionCommands)
        requires
            old(self)@.state == State::Waiting || old(self)@.section_cache.len() > 0,
        ensures
            old(self)@.state == State::Waiting ==> r == (SectionCommands {
                end_queries: false,
                begin_queries: None,
            }) && final(self)@ == old(self)@,
            old(self)@.state == State::Recording ==> {
                let popped = old(self)@.section_cache.last();
                &&& r == (SectionCommands {
                    end_queries: old(self)@.recording_section is Some,
                    begin_queries: Some(
                        QueryPair {
                            timer_handle: popped.timer_handle,
                            geo_handle: popped.geo_handle,
                        },
                    ),
                })
                &&& final(self)@.section_cache == old(self)@.section_cache.drop_last()
                &&& final(self)@.waiting_sections == match old(self)@.recording_section {
                    Some(s) => old(self)@.waiting_sections.push(s),
                    None => old(self)@.waiting_sections,
                }
                &&& final(self)@.recording_section matches Some(s) && s.name@ == name@
                    && s.timer_handle == popped.timer_handle && s.geo_handle == popped.geo_handle
                &&& final(self)@.state == State::Recording
            },
    {
        if self.state == State::Waiting {
            return SectionCommands { end_queries: false, begin_queries: None };
        }
        let end_queries = self.close_open_section();
        let mut section = self.section_cache.pop().unwrap();
        section.name = name.to_owned();
        let begin_queries = Some(
            QueryPair { timer_handle: section.timer_handle, geo_handle: section.geo_handle },
        );
        self.recording_section = Some(section);
        SectionCommands { end_queries, begin_queries }
    }

    /// Closes the open section, which then awaits its results; returns whether
    /// the caller must end the running queries. Does nothing while results
    /// are awaited. While recording, a section must be open.
    pub fn end_section(&mut self) -> (r: bool)
        requires
            old(self)@.state == State::Waiting || old(self)@.recording_section is Some,
        ensures
            old(self)@.state == State::Waiting ==> !r && final(self)@ == old(self)@,
            old(self)@.state == State::Recording ==> {
                &&& r
                &&& final(self)@.recording_section is None
                &&& final(self)@.waiting_sections == old(self)@.waiting_sections.push(
                    old(self)@.recording_section->0,
                )
                &&& final(self)@.section_cache == old(self)@.section_cache
                &&& final(self)@.state == State::Recording
            },
    {
        if self.state == State::Waiting {
            return false;
        }
        self.close_open_section()
    }

    /// Ends the frame: closes the open section, if any, so that it awaits its
    /// results with the others. When `all_ready` says that the results of all
    /// awaited sections are available, they return to the pool, in the order
    /// they were closed, and recording starts again; otherwise the
    /// instrumenter waits. Returns whether the caller must end the running
    /// queries.
    pub fn end_frame(&mut self, all_ready: bool) -> (r: bool)
        ensures
            r == (old(self)@.recording_section is Some),
            final(self)@.recording_section is None,
            ({
                let awaited = match old(self)@.recording_section {
                    Some(s) => old(self)@.waiting_sections.push(s),
                    None => old(self)@.waiting_sections,
                };
                if all_ready {
                    &&& final(self)@.section_cache == old(self)@.section_cache + awaited
                    &&& final(self)@.waiting_sections == Seq::<Section>::empty()
                    &&& final(self)@.state == State::Recording
                } else {
                    &&& final(self)@.section_cache == old(self)@.section_cache
                    &&& final(self)@.waiting_sections == awaited
                    &&& final(self)@.state == State::Waiting
                }
            }),
    {
        let r = self.close_open_section();
        if all_ready {
            self.section_cache.append(&mut self.waiting_sections);
            self.state = State::Recording;
        } else {
            self.state = State::Waiting;
        }
        r
    }

    /// The sections whose results are awaited, in the order they were closed.
    pub fn waiting_sections(&self) -> (r: &Vec<Section>)
        ensures
            r@ == self@.waiting_sections,
    {
        &self.waiting_sections
    }
}

} // verus!
