use wgpu_core::codec::{decode_commands, decode_record, FramingError, RenderCommand, MAX_RECORD_SIZE};
use wgpu_core::raw_pass::RawPass;
use wgpu_core::render_ffi::{
    wgpu_render_pass_draw, wgpu_render_pass_draw_indexed, wgpu_render_pass_execute_bundles,
    wgpu_render_pass_finish, wgpu_render_pass_insert_debug_marker, wgpu_render_pass_pop_debug_group,
    wgpu_render_pass_push_debug_group, wgpu_render_pass_set_bind_group,
    wgpu_render_pass_set_blend_color, wgpu_render_pass_set_index_buffer,
    wgpu_render_pass_set_pipeline, wgpu_render_pass_set_scissor_rect,
    wgpu_render_pass_set_stencil_reference, wgpu_render_pass_set_vertex_buffer,
    wgpu_render_pass_set_viewport, wgpu_render_pass_draw_indirect,
    wgpu_render_pass_draw_indexed_indirect,
};
use wgpu_core::targets::{decode_targets, TARGETS_SIZE};
use wgpu_core::types::{
    Color, ColorAttachmentDescriptor, DepthStencilAttachmentDescriptor, Id, LoadOp, Rect,
    RenderPassDescriptor, StoreOp, WHOLE_SIZE,
};

fn id(index: u32, epoch: u32) -> Id {
    Id { index, epoch }
}

fn offsets_of(trailer: &[u8]) -> Vec<u32> {
    trailer
        .chunks(4)
        .map(|c| u32::from_le_bytes([c[0], c[1], c[2], c[3]]))
        .collect()
}

fn sample_desc() -> RenderPassDescriptor {
    RenderPassDescriptor {
        color_attachments: vec![ColorAttachmentDescriptor {
            attachment: id(1, 2),
            resolve_target: Some(id(3, 0)),
            load_op: LoadOp::Clear,
            store_op: StoreOp::Store,
            clear_color: Color { r: 1, g: 2, b: 3, a: 4 },
        }],
        depth_stencil_attachment: Some(DepthStencilAttachmentDescriptor {
            attachment: id(5, 6),
            depth_load_op: LoadOp::Load,
            depth_store_op: StoreOp::Store,
            clear_depth: 0x3f80_0000,
            depth_read_only: true,
            stencil_load_op: LoadOp::Clear,
            stencil_store_op: StoreOp::Clear,
            clear_stencil: 7,
            stencil_read_only: false,
        }),
    }
}

#[test]
fn header_round_trip() {
    let desc = sample_desc();
    let pass = RawPass::new_render(id(9, 9), &desc);
    assert_eq!(pass.as_slice().len(), TARGETS_SIZE);
    let back = decode_targets(pass.as_slice()).unwrap();
    assert_eq!(back.color_attachments, desc.color_attachments);
    assert_eq!(back.depth_stencil_attachment, desc.depth_stencil_attachment);
}

#[test]
fn header_truncated() {
    let bytes = vec![0u8; TARGETS_SIZE - 1];
    assert_eq!(decode_targets(&bytes).unwrap_err(), FramingError::Truncated { offset: 0 });
}

#[test]
fn every_command_round_trips() {
    let desc = RenderPassDescriptor { color_attachments: vec![], depth_stencil_attachment: None };
    let mut pass = RawPass::new_render(id(0, 0), &desc);
    let max_offsets: Vec<u32> = (0..255u32).map(|i| i * 256).collect();
    let long_label: Vec<u8> = (0..1000u32).map(|i| (i % 251) as u8).collect();
    wgpu_render_pass_set_bind_group(&mut pass, 2, id(4, 1), &[256, 512]);
    wgpu_render_pass_set_bind_group(&mut pass, 0, id(4, 2), &[]);
    wgpu_render_pass_set_bind_group(&mut pass, 1, id(4, 3), &max_offsets);
    wgpu_render_pass_set_pipeline(&mut pass, id(7, 0));
    wgpu_render_pass_set_index_buffer(&mut pass, id(8, 1), 16, WHOLE_SIZE);
    wgpu_render_pass_set_vertex_buffer(&mut pass, 3, id(8, 2), 0xffff_ffff_ff, 64);
    wgpu_render_pass_set_blend_color(&mut pass, &Color { r: u64::MAX, g: 0, b: 1, a: 2 });
    wgpu_render_pass_set_stencil_reference(&mut pass, 0xdead_beef);
    wgpu_render_pass_set_viewport(&mut pass, 1, 2, 3, 4, 5, 6);
    wgpu_render_pass_set_scissor_rect(&mut pass, 10, 20, 30, 40);
    wgpu_render_pass_draw(&mut pass, 3, 1, 0, 0);
    wgpu_render_pass_draw_indexed(&mut pass, 6, 2, 1, -5, 3);
    wgpu_render_pass_draw_indirect(&mut pass, id(8, 3), 12);
    wgpu_render_pass_draw_indexed_indirect(&mut pass, id(8, 4), 24);
    wgpu_render_pass_push_debug_group(&mut pass, b"", 1);
    wgpu_render_pass_push_debug_group(&mut pass, &long_label, 2);
    wgpu_render_pass_insert_debug_marker(&mut pass, b"marker", 3);
    wgpu_render_pass_pop_debug_group(&mut pass);
    wgpu_render_pass_execute_bundles(&mut pass, &[id(11, 0), id(12, 1)]);
    let len = wgpu_render_pass_finish(&mut pass);
    let bytes = pass.as_slice();
    assert_eq!(len, bytes.len());
    let records = decode_commands(bytes, TARGETS_SIZE).unwrap();
    let commands: Vec<RenderCommand> = records.iter().map(|r| r.command).collect();
    assert_eq!(
        commands,
        vec![
            RenderCommand::SetBindGroup { index: 2, num_dynamic_offsets: 2, bind_group_id: id(4, 1) },
            RenderCommand::SetBindGroup { index: 0, num_dynamic_offsets: 0, bind_group_id: id(4, 2) },
            RenderCommand::SetBindGroup { index: 1, num_dynamic_offsets: 255, bind_group_id: id(4, 3) },
            RenderCommand::SetPipeline(id(7, 0)),
            RenderCommand::SetIndexBuffer { buffer_id: id(8, 1), offset: 16, size: WHOLE_SIZE },
            RenderCommand::SetVertexBuffer { slot: 3, buffer_id: id(8, 2), offset: 0xffff_ffff_ff, size: 64 },
            RenderCommand::SetBlendColor(Color { r: u64::MAX, g: 0, b: 1, a: 2 }),
            RenderCommand::SetStencilReference(0xdead_beef),
            RenderCommand::SetViewport { rect: Rect { x: 1, y: 2, w: 3, h: 4 }, depth_min: 5, depth_max: 6 },
            RenderCommand::SetScissor(Rect { x: 10, y: 20, w: 30, h: 40 }),
            RenderCommand::Draw { vertex_count: 3, instance_count: 1, first_vertex: 0, first_instance: 0 },
            RenderCommand::DrawIndexed { index_count: 6, instance_count: 2, first_index: 1, base_vertex: -5, first_instance: 3 },
            RenderCommand::DrawIndirect { buffer_id: id(8, 3), offset: 12 },
            RenderCommand::DrawIndexedIndirect { buffer_id: id(8, 4), offset: 24 },
            RenderCommand::PushDebugGroup { color: 1, len: 0 },
            RenderCommand::PushDebugGroup { color: 2, len: 1000 },
            RenderCommand::InsertDebugMarker { color: 3, len: 6 },
            RenderCommand::PopDebugGroup,
            RenderCommand::ExecuteBundle(id(11, 0)),
            RenderCommand::ExecuteBundle(id(12, 1)),
        ]
    );
    assert_eq!(offsets_of(&records[0].trailer), vec![256, 512]);
    assert!(records[1].trailer.is_empty());
    assert_eq!(offsets_of(&records[2].trailer), max_offsets);
    assert!(records[14].trailer.is_empty());
    assert_eq!(records[15].trailer, long_label);
    assert_eq!(records[16].trailer, b"marker".to_vec());
}

#[test]
fn fill_render_commands_takes_offsets_in_order() {
    let desc = RenderPassDescriptor { color_attachments: vec![], depth_stencil_attachment: None };
    let mut pass = RawPass::new_render(5u32, &desc);
    let commands = [
        RenderCommand::SetBindGroup { index: 0, num_dynamic_offsets: 1, bind_group_id: id(1, 0) },
        RenderCommand::Draw { vertex_count: 1, instance_count: 1, first_vertex: 0, first_instance: 0 },
        RenderCommand::SetBindGroup { index: 1, num_dynamic_offsets: 2, bind_group_id: id(2, 0) },
    ];
    pass.fill_render_commands(&commands, &[256, 512, 768]);
    let (bytes, parent) = pass.finish_render();
    assert_eq!(parent, 5);
    let records = decode_commands(&bytes, TARGETS_SIZE).unwrap();
    assert_eq!(records.len(), 3);
    assert_eq!(records[0].command, commands[0]);
    assert_eq!(offsets_of(&records[0].trailer), vec![256]);
    assert_eq!(records[1].command, commands[1]);
    assert_eq!(offsets_of(&records[2].trailer), vec![512, 768]);
}

#[test]
fn empty_stream_decodes_to_nothing() {
    let desc = RenderPassDescriptor { color_attachments: vec![], depth_stencil_attachment: None };
    let pass = RawPass::new_render(0u8, &desc);
    let (bytes, _) = pass.finish_render();
    assert_eq!(bytes.len(), TARGETS_SIZE + MAX_RECORD_SIZE);
    assert!(decode_commands(&bytes, TARGETS_SIZE).unwrap().is_empty());
}

#[test]
fn record_needs_max_size_remaining() {
    let mut bytes = vec![13u8];
    bytes.extend(std::iter::repeat(0).take(MAX_RECORD_SIZE - 2));
    assert_eq!(decode_record(&bytes, 0).unwrap_err(), FramingError::Truncated { offset: 0 });
    bytes.push(0);
    let (command, trailer, next) = decode_record(&bytes, 0).unwrap();
    assert_eq!(command, RenderCommand::PopDebugGroup);
    assert!(trailer.is_empty());
    assert_eq!(next, 1);
}

#[test]
fn unknown_tag_is_refused() {
    let bytes = vec![17u8; MAX_RECORD_SIZE];
    assert_eq!(decode_record(&bytes, 0).unwrap_err(), FramingError::UnknownTag { offset: 0, tag: 17 });
}

#[test]
fn trailer_overrun_is_refused() {
    let desc = RenderPassDescriptor { color_attachments: vec![], depth_stencil_attachment: None };
    let mut pass = RawPass::new_render(0u8, &desc);
    pass.encode(&RenderCommand::PushDebugGroup { color: 0, len: 100 });
    let mut bytes = pass.as_slice().to_vec();
    bytes.extend(std::iter::repeat(0).take(MAX_RECORD_SIZE));
    assert_eq!(
        decode_commands(&bytes, TARGETS_SIZE).unwrap_err(),
        FramingError::TrailerOverrun { offset: TARGETS_SIZE }
    );
}

#[test]
fn missing_end_is_a_framing_error() {
    let desc = RenderPassDescriptor { color_attachments: vec![], depth_stencil_attachment: None };
    let mut pass = RawPass::new_render(0u8, &desc);
    pass.encode(&RenderCommand::PopDebugGroup);
    let bytes = pass.as_slice().to_vec();
    assert_eq!(
        decode_commands(&bytes, TARGETS_SIZE).unwrap_err(),
        FramingError::Truncated { offset: TARGETS_SIZE }
    );
}

#[test]
fn integers_are_little_endian() {
    let desc = RenderPassDescriptor { color_attachments: vec![], depth_stencil_attachment: None };
    let mut pass = RawPass::new_render(id(0, 0), &desc);
    wgpu_render_pass_set_stencil_reference(&mut pass, 0x0102_0304);
    let bytes = &pass.as_slice()[TARGETS_SIZE..];
    assert_eq!(bytes, &[5u8, 4, 3, 2, 1][..]);
}

#[test]
fn default_command_is_end() {
    assert_eq!(RenderCommand::default(), RenderCommand::End);
}
