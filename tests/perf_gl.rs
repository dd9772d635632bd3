use meshlets::gl::{self, BufferUsage};
use meshlets::perf::{Instrumenter, QueryPair, Section, SectionCommands, State};

fn pool(n: u32) -> Vec<Section> {
    (0..n)
        .map(|i| Section { name: String::new(), timer_handle: 2 * i, geo_handle: 2 * i + 1 })
        .collect()
}

#[test]
fn start_section_takes_the_last_pooled_queries() {
    let mut inst = Instrumenter::new(pool(3));
    let r = inst.start_section("scene");
    assert_eq!(
        r,
        SectionCommands {
            end_queries: false,
            begin_queries: Some(QueryPair { timer_handle: 4, geo_handle: 5 }),
        }
    );
    let r = inst.start_section("paint");
    assert_eq!(
        r,
        SectionCommands {
            end_queries: true,
            begin_queries: Some(QueryPair { timer_handle: 2, geo_handle: 3 }),
        }
    );
    assert_eq!(inst.free_sections(), 1);
    assert!(inst.end_section());
    let names: Vec<&str> = inst.waiting_sections().iter().map(|s| s.name.as_str()).collect();
    assert_eq!(names, vec!["scene", "paint"]);
    assert!(inst.recording_section().is_none());
}

#[test]
fn pool_and_open_section_are_visible() {
    let mut inst = Instrumenter::new(pool(1));
    assert_eq!(inst.state(), State::Recording);
    assert_eq!(inst.free_sections(), 1);
    assert!(inst.recording_section().is_none());
    let _ = inst.start_section("a");
    assert_eq!(inst.free_sections(), 0);
    assert_eq!(inst.recording_section().as_ref().map(|s| s.name.as_str()), Some("a"));
}

#[test]
fn frame_with_results_ready_returns_sections_to_pool() {
    let mut inst = Instrumenter::new(pool(2));
    let _ = inst.start_section("a");
    // the open section is closed, then all sections go back to the pool
    assert!(inst.end_frame(true));
    assert_eq!(inst.state(), State::Recording);
    assert!(inst.waiting_sections().is_empty());
    assert_eq!(inst.free_sections(), 2);
    assert_eq!(
        inst.start_section("b"),
        SectionCommands {
            end_queries: false,
            begin_queries: Some(QueryPair { timer_handle: 2, geo_handle: 3 }),
        }
    );
}

#[test]
fn frame_waits_until_results_are_ready() {
    let mut inst = Instrumenter::new(pool(2));
    let _ = inst.start_section("a");
    assert!(inst.end_frame(false));
    assert_eq!(inst.state(), State::Waiting);
    assert_eq!(inst.waiting_sections().len(), 1);
    assert_eq!(inst.free_sections(), 1);
    assert_eq!(
        inst.start_section("ignored"),
        SectionCommands { end_queries: false, begin_queries: None }
    );
    assert!(!inst.end_section());
    assert!(!inst.end_frame(false));
    assert_eq!(inst.state(), State::Waiting);
    assert!(!inst.end_frame(true));
    assert_eq!(inst.state(), State::Recording);
    assert!(inst.waiting_sections().is_empty());
    assert_eq!(inst.free_sections(), 2);
}

#[test]
fn usage_hints_match_gl() {
    assert_eq!(BufferUsage::Static.gl_enum(), ::gl::STATIC_DRAW);
    assert_eq!(BufferUsage::Dynamic.gl_enum(), ::gl::DYNAMIC_DRAW);
    assert_eq!(BufferUsage::Stream.gl_enum(), ::gl::STREAM_DRAW);
}

#[test]
fn debug_names_match_gl() {
    assert_eq!(gl::severity_name(::gl::DEBUG_SEVERITY_LOW), Some("low"));
    assert_eq!(gl::severity_name(::gl::DEBUG_SEVERITY_MEDIUM), Some("medium"));
    assert_eq!(gl::severity_name(::gl::DEBUG_SEVERITY_HIGH), Some("high"));
    assert_eq!(gl::severity_name(::gl::DEBUG_SEVERITY_NOTIFICATION), Some("notification"));
    assert_eq!(gl::severity_name(0), None);
    assert_eq!(gl::message_type_name(::gl::DEBUG_TYPE_ERROR), Some("error"));
    assert_eq!(gl::message_type_name(::gl::DEBUG_TYPE_DEPRECATED_BEHAVIOR), Some("deprecated behaviour"));
    assert_eq!(gl::message_type_name(::gl::DEBUG_TYPE_UNDEFINED_BEHAVIOR), Some("undefined behaviour"));
    assert_eq!(gl::message_type_name(::gl::DEBUG_TYPE_PORTABILITY), Some("portability"));
    assert_eq!(gl::message_type_name(::gl::DEBUG_TYPE_PERFORMANCE), Some("performance"));
    assert_eq!(gl::message_type_name(::gl::DEBUG_TYPE_OTHER), Some("other"));
    assert_eq!(gl::message_type_name(::gl::DEBUG_SOURCE_API), None);
    assert_eq!(gl::source_name(::gl::DEBUG_SOURCE_API), Some("api"));
    assert_eq!(gl::source_name(::gl::DEBUG_SOURCE_WINDOW_SYSTEM), Some("window system"));
    assert_eq!(gl::source_name(::gl::DEBUG_SOURCE_SHADER_COMPILER), Some("shader compiler"));
    assert_eq!(gl::source_name(::gl::DEBUG_SOURCE_THIRD_PARTY), Some("third party"));
    assert_eq!(gl::source_name(::gl::DEBUG_SOURCE_APPLICATION), Some("application"));
    assert_eq!(gl::source_name(::gl::DEBUG_SOURCE_OTHER), Some("other"));
    assert_eq!(gl::source_name(::gl::DEBUG_TYPE_OTHER), None);
}
