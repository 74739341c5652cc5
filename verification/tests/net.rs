use richter::net::buffer::NetworkBuffer;
use richter::net::cmd::{
    ServerCmdPrint, ServerCmdServerInfo, ServerCmdStuffText, ServerCmdUpdateStat, ServerCmdVersion,
};
use richter::net::{
    ButtonFlags, ClientCmd, ClientStat, GameType, NetError, PlayerColor, PlayerData, ItemFlags,
    PointEntityKind, ServerCmd, SignOnStage, TempEntity,
};

#[test]
fn test_server_cmd_update_stat_read_write_eq() {
    let src: ServerCmd = ServerCmd::UpdateStat {
        stat: ClientStat::Nails,
        value: 64,
    };

    let mut packet = Vec::new();
    src.serialize(&mut packet).unwrap();
    let mut pos = 0usize;
    let dst = ServerCmd::deserialize(packet.as_slice(), &mut pos).unwrap().unwrap();

    assert_eq!(src, dst);
}

#[test]
fn test_server_cmd_version_read_write_eq() {
    let src: ServerCmd = ServerCmd::Version { version: 42 };

    let mut packet = Vec::new();
    src.serialize(&mut packet).unwrap();
    let mut pos = 0usize;
    let dst = ServerCmd::deserialize(packet.as_slice(), &mut pos).unwrap().unwrap();

    assert_eq!(src, dst);
}

#[test]
fn test_server_cmd_set_view_read_write_eq() {
    let src: ServerCmd = ServerCmd::SetView { ent_id: 17 };

    let mut packet = Vec::new();
    src.serialize(&mut packet).unwrap();
    let mut pos = 0usize;
    let dst = ServerCmd::deserialize(packet.as_slice(), &mut pos).unwrap().unwrap();

    assert_eq!(src, dst);
}

#[test]
fn test_server_cmd_time_read_write_eq() {
    let src: ServerCmd = ServerCmd::Time { time: 23.07f32.to_bits() };

    let mut packet = Vec::new();
    src.serialize(&mut packet).unwrap();
    let mut pos = 0usize;
    let dst = ServerCmd::deserialize(packet.as_slice(), &mut pos).unwrap().unwrap();

    assert_eq!(src, dst);
}

#[test]
fn test_server_cmd_print_read_write_eq() {
    let src: ServerCmd = ServerCmd::Print {
        text: String::from("print test"),
    };

    let mut packet = Vec::new();
    src.serialize(&mut packet).unwrap();
    let mut pos = 0usize;
    let dst = ServerCmd::deserialize(packet.as_slice(), &mut pos).unwrap().unwrap();

    assert_eq!(src, dst);
}

#[test]
fn test_server_cmd_stuff_text_read_write_eq() {
    let src: ServerCmd = ServerCmd::StuffText {
        text: String::from("stufftext test"),
    };

    let mut packet = Vec::new();
    src.serialize(&mut packet).unwrap();
    let mut pos = 0usize;
    let dst = ServerCmd::deserialize(packet.as_slice(), &mut pos).unwrap().unwrap();

    assert_eq!(src, dst);
}

#[test]
fn test_server_cmd_server_info_read_write_eq() {
    let src: ServerCmd = ServerCmd::ServerInfo {
        protocol_version: 42,
        max_clients: 16,
        game_type: GameType::Deathmatch,
        message: String::from("Test message"),
        model_precache: vec![String::from("test1.bsp"), String::from("test2.bsp")],
        sound_precache: vec![String::from("test1.wav"), String::from("test2.wav")],
    };

    let mut packet = Vec::new();
    src.serialize(&mut packet).unwrap();
    let mut pos = 0usize;
    let dst = ServerCmd::deserialize(packet.as_slice(), &mut pos).unwrap().unwrap();

    assert_eq!(src, dst);
}

#[test]
fn test_server_cmd_light_style_read_write_eq() {
    let src: ServerCmd = ServerCmd::LightStyle {
        id: 11,
        value: String::from("aaaaabcddeefgghjjjkaaaazzzzyxwaaaba"),
    };

    let mut packet = Vec::new();
    src.serialize(&mut packet).unwrap();
    let mut pos = 0usize;
    let dst = ServerCmd::deserialize(packet.as_slice(), &mut pos).unwrap().unwrap();

    assert_eq!(src, dst);
}

#[test]
fn test_server_cmd_update_name_read_write_eq() {
    let src: ServerCmd = ServerCmd::UpdateName {
        player_id: 7,
        new_name: String::from("newname"),
    };

    let mut packet = Vec::new();
    src.serialize(&mut packet).unwrap();
    let mut pos = 0usize;
    let dst = ServerCmd::deserialize(packet.as_slice(), &mut pos).unwrap().unwrap();

    assert_eq!(src, dst);
}

#[test]
fn test_server_cmd_update_frags_read_write_eq() {
    let src: ServerCmd = ServerCmd::UpdateFrags {
        player_id: 7,
        new_frags: 11,
    };

    let mut packet = Vec::new();
    src.serialize(&mut packet).unwrap();
    let mut pos = 0usize;
    let dst = ServerCmd::deserialize(packet.as_slice(), &mut pos).unwrap().unwrap();

    assert_eq!(src, dst);
}

#[test]
fn test_server_cmd_stop_sound_read_write_eq() {
    let src: ServerCmd = ServerCmd::StopSound {
        entity_id: 17,
        channel: 3,
    };

    let mut packet = Vec::new();
    src.serialize(&mut packet).unwrap();
    let mut pos = 0usize;
    let dst = ServerCmd::deserialize(packet.as_slice(), &mut pos).unwrap().unwrap();

    assert_eq!(src, dst);
}

#[test]
fn test_server_cmd_update_colors_read_write_eq() {
    let src: ServerCmd = ServerCmd::UpdateColors {
        player_id: 11,
        new_colors: PlayerColor::new(4, 13),
    };

    let mut packet = Vec::new();
    src.serialize(&mut packet).unwrap();
    let mut pos = 0usize;
    let dst = ServerCmd::deserialize(packet.as_slice(), &mut pos).unwrap().unwrap();

    assert_eq!(src, dst);
}

#[test]
fn test_server_cmd_set_pause_read_write_eq() {
    let src: ServerCmd = ServerCmd::SetPause { paused: true };

    let mut packet = Vec::new();
    src.serialize(&mut packet).unwrap();
    let mut pos = 0usize;
    let dst = ServerCmd::deserialize(packet.as_slice(), &mut pos).unwrap().unwrap();

    assert_eq!(src, dst);
}

#[test]
fn test_server_cmd_sign_on_stage_read_write_eq() {
    let src: ServerCmd = ServerCmd::SignOnStage {
        stage: SignOnStage::Begin,
    };

    let mut packet = Vec::new();
    src.serialize(&mut packet).unwrap();
    let mut pos = 0usize;
    let dst = ServerCmd::deserialize(packet.as_slice(), &mut pos).unwrap().unwrap();

    assert_eq!(src, dst);
}

#[test]
fn test_server_cmd_center_print_read_write_eq() {
    let src: ServerCmd = ServerCmd::CenterPrint {
        text: String::from("Center print test"),
    };

    let mut packet = Vec::new();
    src.serialize(&mut packet).unwrap();
    let mut pos = 0usize;
    let dst = ServerCmd::deserialize(packet.as_slice(), &mut pos).unwrap().unwrap();

    assert_eq!(src, dst);
}

#[test]
fn test_server_cmd_finale_read_write_eq() {
    let src: ServerCmd = ServerCmd::Finale {
        text: String::from("Finale test"),
    };

    let mut packet = Vec::new();
    src.serialize(&mut packet).unwrap();
    let mut pos = 0usize;
    let dst = ServerCmd::deserialize(packet.as_slice(), &mut pos).unwrap().unwrap();

    assert_eq!(src, dst);
}

#[test]
fn test_server_cmd_cd_track_read_write_eq() {
    let src: ServerCmd = ServerCmd::CdTrack { track: 5, loop_: 1 };

    let mut packet = Vec::new();
    src.serialize(&mut packet).unwrap();
    let mut pos = 0usize;
    let dst = ServerCmd::deserialize(packet.as_slice(), &mut pos).unwrap().unwrap();

    assert_eq!(src, dst);
}

#[test]
fn test_server_cmd_cutscene_read_write_eq() {
    let src: ServerCmd = ServerCmd::Cutscene {
        text: String::from("Cutscene test"),
    };

    let mut packet = Vec::new();
    src.serialize(&mut packet).unwrap();
    let mut pos = 0usize;
    let dst = ServerCmd::deserialize(packet.as_slice(), &mut pos).unwrap().unwrap();

    assert_eq!(src, dst);
}

#[test]
fn test_client_cmd_string_cmd_read_write_eq() {
    let src = ClientCmd::StringCmd {
        cmd: String::from("StringCmd test"),
    };
    let mut packet = Vec::new();
    src.serialize(&mut packet).unwrap();
    let mut pos = 0usize;
    let dst = ClientCmd::deserialize(packet.as_slice(), &mut pos).unwrap();

    assert_eq!(src, dst);
}

#[test]
fn test_client_cmd_move_read_write_eq() {
    // 1234 ms as seconds; the angles 90, -90 and 0 degrees in 256ths of a turn
    let src = ClientCmd::Move {
        send_time: 1.234f32.to_bits(),
        angles: [64, -64, 0],
        fwd_move: 27,
        side_move: 85,
        up_move: 76,
        button_flags: ButtonFlags::empty(),
        impulse: 121,
    };

    let mut packet = Vec::new();
    src.serialize(&mut packet).unwrap();
    let mut pos = 0usize;
    let dst = ClientCmd::deserialize(packet.as_slice(), &mut pos).unwrap();

    assert_eq!(src, dst);
}

#[test]
fn server_cmd_update_stat_bytes() {
    let src = ServerCmd::UpdateStat { stat: ClientStat::Nails, value: 64 };
    let mut packet = Vec::new();
    src.serialize(&mut packet).unwrap();
    assert_eq!(packet, vec![3, 7, 64, 0, 0, 0]);
}

#[test]
fn server_cmds_read_in_sequence() {
    let first = ServerCmd::Print { text: String::from("a") };
    let second = ServerCmd::SetPause { paused: false };
    let mut packet = Vec::new();
    first.serialize(&mut packet).unwrap();
    second.serialize(&mut packet).unwrap();
    let mut pos = 0usize;
    assert_eq!(ServerCmd::deserialize(&packet, &mut pos).unwrap(), Some(first));
    assert_eq!(pos, 3);
    assert_eq!(ServerCmd::deserialize(&packet, &mut pos).unwrap(), Some(second));
    assert_eq!(ServerCmd::deserialize(&packet, &mut pos).unwrap(), None);
}

#[test]
fn server_cmd_player_data_read_write_eq() {
    let src = ServerCmd::PlayerData(PlayerData {
        view_height: Some(22),
        ideal_pitch: None,
        punch_pitch: Some(-3),
        velocity_x: None,
        punch_yaw: None,
        velocity_y: Some(5),
        punch_roll: None,
        velocity_z: None,
        items: ItemFlags::from_bits(0x0000_1001).unwrap(),
        on_ground: true,
        in_water: false,
        weapon_frame: None,
        armor: Some(100),
        weapon: Some(2),
        health: 100,
        ammo: 25,
        ammo_shells: 25,
        ammo_nails: 0,
        ammo_rockets: 0,
        ammo_cells: 0,
        active_weapon: 1,
    });
    let mut packet = Vec::new();
    src.serialize(&mut packet).unwrap();
    let mut pos = 0usize;
    let dst = ServerCmd::deserialize(&packet, &mut pos).unwrap().unwrap();
    assert_eq!(src, dst);
    assert_eq!(pos, packet.len());
}

#[test]
fn server_cmd_temp_entity_read_write_eq() {
    let src = ServerCmd::TempEntity {
        temp_entity: TempEntity::Point { kind: PointEntityKind::Explosion, origin: [8, -16, 24] },
    };
    let mut packet = Vec::new();
    src.serialize(&mut packet).unwrap();
    let mut pos = 0usize;
    assert_eq!(ServerCmd::deserialize(&packet, &mut pos).unwrap(), Some(src));
}

#[test]
fn server_cmd_truncated_is_io_error() {
    let mut pos = 0usize;
    let r = ServerCmd::deserialize(&[4, 42, 0], &mut pos);
    assert!(matches!(r, Err(NetError::Io)));
}

#[test]
fn server_cmd_bad_code_is_invalid() {
    let mut pos = 0usize;
    let r = ServerCmd::deserialize(&[21], &mut pos);
    assert!(matches!(r, Err(NetError::InvalidData(ref m)) if m == "Invalid server command code: 21"));
}

#[test]
fn server_cmd_bad_utf8_print_is_other_error() {
    let mut pos = 0usize;
    let r = ServerCmd::deserialize(&[8, 0xff, 0], &mut pos);
    assert!(matches!(r, Err(NetError::Other(_))));
}

#[test]
fn server_cmd_unterminated_string_panics_in_reading() {
    assert!(ServerCmd::deserialize_panics(&[12, 1, b'a'], 0));
    assert!(!ServerCmd::deserialize_panics(&[12, 1, b'a', 0], 0));
}

#[test]
fn server_cmd_fast_update_reads_fields() {
    // flags: more bits, origin x, model; high byte: model (bit 10)
    let bytes = [0x80 | 0x03, 0x04, 7, 9, 0x10, 0x00];
    let mut pos = 0usize;
    let cmd = ServerCmd::deserialize(&bytes, &mut pos).unwrap().unwrap();
    match cmd {
        ServerCmd::FastUpdate(u) => {
            assert_eq!(u.ent_id, 7);
            assert_eq!(u.model_id, Some(9));
            assert_eq!(u.origin_x, Some(16));
            assert_eq!(u.pitch, None);
        },
        _ => panic!("not a fast update"),
    }
    assert_eq!(pos, bytes.len());
}

#[test]
fn client_cmd_empty_is_io_error() {
    let mut pos = 0usize;
    assert!(matches!(ClientCmd::deserialize(&[], &mut pos), Err(NetError::Io)));
}

#[test]
fn client_cmd_bad_buttons_are_invalid() {
    let mut bytes = vec![3u8; 16];
    bytes[14] = 0xff;
    let mut pos = 0usize;
    assert!(matches!(ClientCmd::deserialize(&bytes, &mut pos), Err(NetError::InvalidData(_))));
}

#[test]
fn mod_test_server_cmd_update_stat_read_write_eq() {
    let src = ServerCmdUpdateStat {
        stat: ClientStat::Nails,
        value: 64,
    };

    let mut packet = Vec::new();
    src.write_content(&mut packet).unwrap();
    let mut pos = 0usize;
    let dst = ServerCmdUpdateStat::read_content(packet.as_slice(), &mut pos).unwrap();

    assert_eq!(src, dst);
}

#[test]
fn mod_test_server_cmd_version_read_write_eq() {
    let src = ServerCmdVersion { version: 42 };

    let mut packet = Vec::new();
    src.write_content(&mut packet).unwrap();
    let mut pos = 0usize;
    let dst = ServerCmdVersion::read_content(packet.as_slice(), &mut pos).unwrap();

    assert_eq!(src, dst);
}

#[test]
fn cursor_update_stat_layout_and_errors() {
    let src = ServerCmdUpdateStat { stat: ClientStat::Armor, value: -2 };
    assert_eq!(src.code(), 3);
    let mut packet = Vec::new();
    src.write_content(&mut packet).unwrap();
    assert_eq!(packet, vec![4, 0xfe, 0xff, 0xff, 0xff]);
    let mut pos = 0usize;
    assert!(matches!(ServerCmdUpdateStat::read_content(&[99, 0, 0, 0, 0], &mut pos), Err(NetError::Other(_))));
    let mut pos = 0usize;
    assert!(matches!(ServerCmdUpdateStat::read_content(&[1, 0, 0], &mut pos), Err(NetError::Io)));
    let mut pos = 0usize;
    assert!(matches!(ServerCmdUpdateStat::read_content(&[], &mut pos), Err(NetError::Io)));
}

#[test]
fn cursor_print_reads_to_zero_or_drops_last_byte() {
    let src = ServerCmdPrint { text: String::from("hello") };
    let mut packet = Vec::new();
    src.write_content(&mut packet).unwrap();
    assert_eq!(packet, b"hello\0".to_vec());
    let mut pos = 0usize;
    let dst = ServerCmdPrint::read_content(&packet, &mut pos).unwrap();
    assert_eq!(dst.text, "hello");
    assert_eq!(pos, 6);
    let mut pos = 0usize;
    let cut = ServerCmdStuffText::read_content(b"abc", &mut pos).unwrap();
    assert_eq!(cut.text, "ab");
    assert_eq!(pos, 3);
    let mut pos = 0usize;
    assert!(ServerCmdPrint::read_content(&[0xff, 0], &mut pos).is_err());
}

#[test]
fn cursor_server_info_round_trip() {
    let src = ServerCmdServerInfo {
        protocol_version: 15,
        max_clients: 8,
        game_type: 0,
        model_precache: vec![String::from("maps/e1m1.bsp"), String::from("progs/player.mdl")],
        sound_precache: vec![String::from("weapons/ric1.wav")],
    };
    let mut packet = Vec::new();
    src.write_content(&mut packet).unwrap();
    let mut pos = 0usize;
    let dst = ServerCmdServerInfo::read_content(&packet, &mut pos).unwrap();
    assert_eq!(pos, packet.len());
    assert_eq!(dst.protocol_version, 15);
    assert_eq!(dst.max_clients, 8);
    assert_eq!(dst.model_precache, src.model_precache);
    assert_eq!(dst.sound_precache, src.sound_precache);
}

#[test]
fn network_buffer_reads_back_what_was_written() {
    let mut b = NetworkBuffer::new();
    assert!(b.is_empty());
    assert_eq!(b.write(&[1, 2, 3, 4]), 4);
    assert_eq!(b.position(), 4);
    assert!(!b.is_empty());
    b.rewind();
    let mut out = [9u8; 3];
    assert_eq!(b.read(&mut out), 3);
    assert_eq!(out, [1, 2, 3]);
    let mut rest = [9u8; 3];
    assert_eq!(b.read(&mut rest), 1);
    assert_eq!(rest, [4, 9, 9]);
    assert_eq!(b.read(&mut rest), 0);

    // writing at the end extends the bytes; writing in the middle overwrites them
    assert_eq!(b.write(&[7]), 1);
    assert_eq!(b.get_ref(), &[1, 2, 3, 4, 7]);
    b.rewind();
    b.write(&[8, 8]);
    assert_eq!(b.get_ref(), &[8, 8, 3, 4, 7]);
    b.get_mut()[4] = 6;
    assert_eq!(b.get_ref(), &[8, 8, 3, 4, 6]);
    b.clear();
    assert!(b.is_empty());
    assert_eq!(b.position(), 0);
}
