use plinth::draw::DrawCommand;
use plinth::draw::vertex_ranges;
use plinth::draw::DrawCommands;
use plinth::texture::StorageId;
use plinth::texture::TextureFormat;

fn rgba(id: u64) -> StorageId {
    StorageId { id, format: TextureFormat::Rgba8Unorm }
}

fn alpha(id: u64) -> StorageId {
    StorageId { id, format: TextureFormat::R8Unorm }
}

#[test]
fn primitives_with_the_same_textures_share_a_command() {
    let mut commands = DrawCommands::new(rgba(0), alpha(0));
    assert!(commands.push(rgba(0), alpha(0), true));
    assert!(commands.push(rgba(0), alpha(0), true));
    assert_eq!(
        commands.commands(),
        &[DrawCommand::Draw { color_storage_id: rgba(0), alpha_storage_id: alpha(0), num_vertices: 12 }]
    );
}

#[test]
fn a_texture_change_starts_a_new_command() {
    let mut commands = DrawCommands::new(rgba(0), alpha(0));
    assert!(commands.push(rgba(1), alpha(0), true));
    assert!(commands.push(rgba(1), alpha(0), true));
    assert!(commands.push(rgba(0), alpha(0), true));
    assert_eq!(
        commands.commands(),
        &[
            DrawCommand::Draw { color_storage_id: rgba(0), alpha_storage_id: alpha(0), num_vertices: 0 },
            DrawCommand::Draw { color_storage_id: rgba(1), alpha_storage_id: alpha(0), num_vertices: 12 },
            DrawCommand::Draw { color_storage_id: rgba(0), alpha_storage_id: alpha(0), num_vertices: 6 },
        ]
    );
}

#[test]
fn unready_textures_skip_the_primitive_until_reset() {
    let mut commands = DrawCommands::new(rgba(0), alpha(0));
    assert!(!commands.has_unready_textures());
    assert!(!commands.push(rgba(3), alpha(0), false));
    assert!(commands.has_unready_textures());
    assert_eq!(commands.commands().len(), 1);
    commands.reset(rgba(0), alpha(0));
    assert!(!commands.has_unready_textures());
    assert_eq!(
        commands.commands(),
        &[DrawCommand::Draw { color_storage_id: rgba(0), alpha_storage_id: alpha(0), num_vertices: 0 }]
    );
}

#[test]
fn commands_draw_consecutive_vertex_ranges() {
    let mut commands = DrawCommands::new(rgba(0), alpha(0));
    commands.push(rgba(1), alpha(0), true);
    commands.push(rgba(1), alpha(0), true);
    commands.push(rgba(0), alpha(0), true);
    assert_eq!(vertex_ranges(commands.commands()), vec![(0, 0), (0, 12), (12, 18)]);
    assert!(vertex_ranges(&[]).is_empty());
}

#[test]
fn commands_draw_six_vertices_per_recorded_primitive() {
    let mut commands = DrawCommands::new(rgba(0), alpha(0));
    assert_eq!(commands.primitive_count(), 0);
    commands.push(rgba(1), alpha(0), true);
    commands.push(rgba(2), alpha(0), false);
    commands.push(rgba(1), alpha(0), true);
    commands.push(rgba(0), alpha(0), true);
    assert_eq!(commands.primitive_count(), 3);
    let total: u32 = commands
        .commands()
        .iter()
        .map(|DrawCommand::Draw { num_vertices, .. }| *num_vertices)
        .sum();
    assert_eq!(total as usize, 6 * commands.primitive_count());
    commands.reset(rgba(0), alpha(0));
    assert_eq!(commands.primitive_count(), 0);
}
