use lilygo_rs::frame::{
    assemble_frame_data, check_frame_ready, poll_step, PollStep, MAX_WAIT_ITERATIONS, new_data_ready, readout_mode, readout_mode_code, refresh_rate_control,
    register_write_payload, resolution_code, subpage_of_status, validate_aux_data, validate_frame_data,
    word_from_be_bytes, word_to_be_bytes, words_from_be_bytes, CTRL_REG, EEPROM_START,
};
use lilygo_rs::types::{Error, FrameRate};

fn ok<T>(r: Result<T, Error>) -> bool {
    r.is_ok()
}

#[test]
fn validate_aux_data_good() {
    let aux = [0u16; 64];
    assert!(ok(validate_aux_data(&aux)));
}

#[test]
fn validate_aux_data_bad_index_0() {
    let mut aux = [0u16; 64];
    aux[0] = 0x7FFF;
    assert!(!ok(validate_aux_data(&aux)));
}

#[test]
fn validate_aux_data_bad_in_range() {
    let mut aux = [0u16; 64];
    aux[9] = 0x7FFF;
    assert!(!ok(validate_aux_data(&aux)));
}

#[test]
fn validate_aux_data_sentinel_outside_range_ok() {
    let mut aux = [0u16; 64];
    aux[7] = 0x7FFF;
    assert!(ok(validate_aux_data(&aux)));
}

#[test]
fn validate_aux_data_every_index() {
    let checked = |i: usize| {
        i == 0 || (8..19).contains(&i) || (20..23).contains(&i) || (24..33).contains(&i)
            || (40..51).contains(&i) || (52..55).contains(&i) || (56..64).contains(&i)
    };
    for i in 0..64 {
        let mut aux = [0u16; 64];
        aux[i] = 0x7FFF;
        let r = validate_aux_data(&aux);
        if checked(i) {
            assert_eq!(r, Err(Error::FrameDataError), "index {}", i);
        } else {
            assert_eq!(r, Ok(()), "index {}", i);
        }
    }
}

#[test]
fn validate_frame_data_good() {
    let mut fd = [0u16; 834];
    for (i, v) in fd.iter_mut().enumerate().step_by(32) {
        *v = i as u16;
    }
    assert!(ok(validate_frame_data(&fd, 0)));
}

#[test]
fn validate_frame_data_sentinel_on_wrong_subpage_ok() {
    let mut fd = [0u16; 834];
    fd[0] = 0x7FFF;
    assert!(ok(validate_frame_data(&fd, 1)));
}

#[test]
fn validate_frame_data_sentinel_on_correct_subpage_err() {
    let mut fd = [0u16; 834];
    fd[0] = 0x7FFF;
    assert!(!ok(validate_frame_data(&fd, 0)));
}

#[test]
fn validate_frame_data_sentinel_on_odd_line_even_subpage() {
    let mut fd = [0u16; 834];
    fd[32] = 0x7FFF;
    assert!(!ok(validate_frame_data(&fd, 1)));
    assert!(ok(validate_frame_data(&fd, 0)));
}

#[test]
fn validate_frame_data_only_line_starts() {
    let mut fd = [0u16; 834];
    fd[33] = 0x7FFF;
    fd[767] = 0x7FFF;
    assert!(ok(validate_frame_data(&fd, 1)));
    assert!(ok(validate_frame_data(&fd, 0)));
    fd[736] = 0x7FFF;
    assert_eq!(validate_frame_data(&fd, 1), Err(Error::FrameDataError));
}

#[test]
fn bytes_and_words() {
    assert_eq!(word_to_be_bytes(0x2400), [0x24, 0x00]);
    assert_eq!(word_to_be_bytes(EEPROM_START), [0x24, 0x00]);
    assert_eq!(word_from_be_bytes(0xAB, 0xCD), 0xABCD);
    assert_eq!(register_write_payload(0x8000, 0x0030), [0x80, 0x00, 0x00, 0x30]);
    assert_eq!(words_from_be_bytes(&[0x12, 0x34, 0xFF, 0x01, 0x7F]), vec![0x1234, 0xFF01]);
    assert_eq!(words_from_be_bytes(&[]), Vec::<u16>::new());
    for w in [0u16, 1, 0x7FFF, 0x8000, 0xFFFF, 0x1234] {
        let b = word_to_be_bytes(w);
        assert_eq!(word_from_be_bytes(b[0], b[1]), w);
    }
}

#[test]
fn refresh_rate_written_and_read_back() {
    let ctrl: u16 = 0x1901;
    let v = refresh_rate_control(ctrl, u16::from(FrameRate::Eight));
    assert_eq!(v, 0x1A01);
    assert_eq!((v >> 7) & 0b111, 4);
    assert_eq!(v & !0x0380, ctrl & !0x0380);
    assert_eq!(refresh_rate_control(0xFFFF, 0), 0xFC7F);
    assert_eq!(refresh_rate_control(0x0000, 7), 0x0380);
    // Only the low three bits of the code are used.
    assert_eq!(refresh_rate_control(0x0000, 9), 0x0080);
    assert_eq!(CTRL_REG, 0x800D);
}

#[test]
fn status_and_control_bits() {
    assert!(new_data_ready(0x0008));
    assert!(new_data_ready(0x0039));
    assert!(!new_data_ready(0x0031));
    assert_eq!(check_frame_ready(0x0008), Ok(()));
    assert_eq!(check_frame_ready(0x0000), Err(Error::Timeout));
    assert_eq!(subpage_of_status(0x0009), 1);
    assert_eq!(subpage_of_status(0x0008), 0);
    assert_eq!(readout_mode(0x1901), 1);
    assert_eq!(readout_mode(0x0901), 0);
    assert_eq!(readout_mode_code(0x1901), 0x80);
    assert_eq!(readout_mode_code(0x0901), 0);
    assert_eq!(resolution_code(0x1901), 2);
    assert_eq!(resolution_code(0x0C00), 3);
}

#[test]
fn frame_assembled_in_order() {
    let pixels: Vec<u16> = (0..768).map(|i| i as u16 + 1).collect();
    let aux: Vec<u16> = (0..64).map(|i| 1000 + i as u16).collect();
    let f = assemble_frame_data(&pixels, &aux, 0x1901, 0x0009).unwrap();
    assert_eq!(f.len(), 834);
    assert_eq!(&f[..768], &pixels[..]);
    assert_eq!(&f[768..832], &aux[..]);
    assert_eq!(f[832], 0x1901);
    assert_eq!(f[833], 1);
}

#[test]
fn frame_rejected_on_unmeasured_line_of_its_subpage() {
    let mut pixels = vec![0u16; 768];
    pixels[64] = 0x7FFF; // line 2, subpage 0
    let aux = vec![0u16; 64];
    assert_eq!(assemble_frame_data(&pixels, &aux, 0, 0x0008), Err(Error::FrameDataError));
    assert!(assemble_frame_data(&pixels, &aux, 0, 0x0009).is_ok());
}

#[test]
fn polling_stops_on_frame_or_limit() {
    assert_eq!(poll_step(0, 0x0000), PollStep::PollAgain);
    assert_eq!(poll_step(0, 0x0008), PollStep::FinalCheck);
    assert_eq!(poll_step(1998, 0x0000), PollStep::PollAgain);
    assert_eq!(poll_step(1999, 0x0000), PollStep::FinalCheck);
    assert_eq!(MAX_WAIT_ITERATIONS, 2000);
    // A status that never reports a frame is polled exactly 2000 times.
    let mut polls = 0u32;
    loop {
        let step = poll_step(polls, 0x0031);
        polls += 1;
        if step == PollStep::FinalCheck {
            break;
        }
    }
    assert_eq!(polls, 2000);
}
