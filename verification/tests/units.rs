use tracer::args::is_supported_model_format;
use tracer::args::log_level_from_str;
use tracer::cs::Model;
use tracer::scene::{assemble_buffers, load_mesh, MeshData};
use tracer::control;
use tracer::control::event_manager::InputEvent;
use tracer::cs;
use tracer::fps_counter::FPSCounter;
use tracer::gl_types::{FromArr2, FromArr3, UVec2, UVec3, Vec3, vec3_max, vec3_min};
use tracer::grid::GridBuilder;
use tracer::input;
use tracer::statistics::Statistics;
use tracer::tracers::raycasting::RaycastingShader;

#[test]
fn model_format_extension() {
    assert!(is_supported_model_format("cube.obj"));
    assert!(is_supported_model_format("dir.v2/cube.tri.obj"));
    assert!(is_supported_model_format("obj"));
    assert!(!is_supported_model_format("cube.objx"));
    assert!(!is_supported_model_format("cube.stl"));
    assert!(!is_supported_model_format("cube.obj."));
    assert!(!is_supported_model_format(""));
}

#[test]
fn vec_records() {
    let a = Vec3::from_arr3([3, -7, 2]);
    let b = Vec3::from_arr3([-1, 5, 2]);
    assert_eq!(vec3_min(&a, &b).position, [-1, -7, 2]);
    assert_eq!(vec3_max(&a, &b).position, [3, 5, 2]);
    assert_eq!(UVec3::from_arr3([1, 2, 3]).position, [1, 2, 3]);
    assert_eq!(UVec2::from_arr2([4, 5]).position, [4, 5]);
}

#[test]
fn keyboard_scancodes() {
    let mut kb = control::Keyboard::new();
    assert!(!kb.forward_pressed);
    kb.handle_keypress(25, true);
    assert!(kb.forward_pressed);
    kb.handle_keypress(111, false);
    assert!(!kb.forward_pressed);
    kb.handle_keypress(38, true);
    kb.handle_keypress(40, true);
    kb.handle_keypress(39, true);
    kb.handle_keypress(50, true);
    kb.handle_keypress(37, true);
    assert!(kb.left_pressed && kb.right_pressed && kb.back_pressed);
    assert!(kb.top_pressed && kb.bottom_pressed);
    // An unbound scancode changes nothing.
    kb.handle_keypress(99, false);
    assert!(kb.left_pressed && kb.right_pressed && kb.back_pressed);

    let mut kb2 = input::Keyboard::new();
    kb2.handle_keypress(113, true);
    assert!(kb2.left_pressed);
}

#[test]
fn fps_counter_refresh() {
    let mut fps = FPSCounter::new(100, 0);
    fps.end_frame(40);
    // Interval not yet over: nothing published.
    assert_eq!(fps.current_fps(), 0);
    assert_eq!(fps.render_time(), 0);
    fps.end_frame(80);
    fps.end_frame(120);
    // 120 ms over three frames: 40 ms per frame, 25 FPS.
    assert_eq!(fps.render_time(), 40);
    assert_eq!(fps.current_fps(), 25);
    assert_eq!(fps.frames_rendered, 0);
    assert_eq!(fps.updated_at, 120);
}

#[test]
fn statistics_running_average() {
    let mut stats = Statistics::new(12, 640 * 480);
    let frame1 = cs::GpuStatistics {
        triangle_tests: 100,
        triangle_intersections: 10,
        cell_intersections: 3,
    };
    stats.add_stats(&frame1, 8);
    assert_eq!(stats.samples_count, 1);
    assert_eq!(stats.average_gpu_stats.triangle_tests, 100);
    assert_eq!(stats.average_gpu_stats.triangle_intersections, 10);
    assert_eq!(stats.average_render_time, 8);
    let frame2 = cs::GpuStatistics {
        triangle_tests: 50,
        triangle_intersections: 40,
        cell_intersections: 9,
    };
    stats.add_stats(&frame2, 3);
    assert_eq!(stats.samples_count, 2);
    // (100 * 1 + 50) / 2 and (10 * 1 + 40) / 2 and (8 * 1 + 3) / 2.
    assert_eq!(stats.average_gpu_stats.triangle_tests, 75);
    assert_eq!(stats.average_gpu_stats.triangle_intersections, 25);
    assert_eq!(stats.average_render_time, 5);
    assert_eq!(stats.triangle_count, 12);
    assert_eq!(stats.primary_rays, 640 * 480);
}

#[test]
fn grid_uniform_record() {
    let positions = vec![
        Vec3 { position: [0, 0, 0] },
        Vec3 { position: [8, 4, 2] },
        Vec3 { position: [1, 4, 1] },
    ];
    let indices = vec![UVec3 { position: [0, 1, 2] }];
    let builder = GridBuilder::new(positions, indices, 1);
    let grid = builder.build().unwrap();
    let record = cs::Grid::new(&grid);
    assert_eq!(record.minimum_cell.position, grid.bbox.min.position);
    assert_eq!(record.maximum_cell.position, grid.bbox.max.position);
    assert_eq!(record.resolution.position, grid.resolution.position);
    assert_eq!(record.cell_size.num, grid.cell_size.num);
    let shader = RaycastingShader {};
    let record2 = shader.grid_uniform(&grid);
    assert_eq!(record2.resolution.position, grid.resolution.position);
}

#[test]
fn log_level_flags() {
    let none = log_level_from_str("none");
    assert!(!none.error && !none.warning && !none.performance_warning);
    assert!(!none.information && !none.debug);
    let error = log_level_from_str("error");
    assert!(error.error && !error.warning);
    let perf = log_level_from_str("perf");
    assert!(perf.error && perf.warning && perf.performance_warning);
    assert!(!perf.information && !perf.debug);
    let debug = log_level_from_str("debug");
    assert!(debug.error && debug.warning && debug.performance_warning);
    assert!(debug.information && debug.debug);
}

#[test]
fn mesh_merge_rebases_indices() {
    let p = |x: i64| Vec3 { position: [x, 0, 0] };
    let meshes = vec![
        MeshData {
            positions: vec![p(1), p(2), p(3)],
            indices: vec![0, 1, 2],
            material_id: 7,
        },
        MeshData {
            positions: vec![p(4), p(5), p(6), p(7)],
            indices: vec![2, 1, 0, 1, 2, 3],
            material_id: -1,
        },
    ];
    let (models, positions, flat) = load_mesh(&meshes);
    assert_eq!(positions.len(), 7);
    assert_eq!(positions[3].position, [4, 0, 0]);
    // The second mesh's indices are rebased by the three vertices that
    // precede it.
    assert_eq!(flat, vec![0, 1, 2, 5, 4, 3, 4, 5, 6]);
    assert_eq!(
        models[0],
        Model { indices_start: 0, indices_end: 1, material_idx: 7 }
    );
    assert_eq!(
        models[1],
        Model { indices_start: 1, indices_end: 3, material_idx: -1 }
    );
    let buffers = assemble_buffers(&meshes);
    assert_eq!(buffers.triangle_count, 3);
    assert_eq!(buffers.indices[1].position, [5, 4, 3]);
    assert_eq!(buffers.indices[2].position, [4, 5, 6]);
}

#[test]
fn event_manager_flags() {
    let mut em = tracer::control::EventManager::new();
    assert!(!em.done(), "fresh manager is not done");
    em.process_event(InputEvent::Key { scancode: 25, pressed: true });
    assert!(em.keyboard.forward_pressed);
    assert!(!em.done());
    em.process_event(InputEvent::Resized);
    assert!(em.recreate_swapchain());
    // The flag is one-shot.
    assert!(!em.recreate_swapchain());
    // Releasing the quit key ends the session without touching the keys.
    em.process_event(InputEvent::Key { scancode: 9, pressed: false });
    assert!(em.keyboard.forward_pressed);
    assert!(em.done());
    assert!(!em.done());
    em.process_event(InputEvent::Closed);
    assert!(em.done());
}
