use bitbang_gpio::encoder::{add_data_to_buffer, encode_bytes};
use bitbang_gpio::error::GpioError;
use bitbang_gpio::port::Port;
use bitbang_gpio::register::{read_bit, Register};
use bitbang_gpio::report::{render_bits, render_port};
use bitbang_gpio::transmitter::{initialise, send_buffer, toggle_clock, PinConfig, Step};

fn text(chars: Vec<char>) -> String {
    chars.into_iter().collect()
}

#[test]
fn write_then_read_keeps_other_bits() {
    for start in [0x00u8, 0xFF, 0xA5, 0x3C] {
        for p in 0u8..8 {
            for v in 0u8..=1 {
                let mut reg = Register::new(start);
                assert_eq!(reg.write_bit(p, v), Ok(()));
                assert_eq!(reg.read_bit(p), Ok(v));
                for q in 0u8..8 {
                    if q != p {
                        assert_eq!(reg.read_bit(q), read_bit(start, q));
                    }
                }
            }
        }
    }
}

#[test]
fn write_bit_sets_and_clears_one_bit() {
    let mut reg = Register::new(0b0101_0000);
    assert_eq!(reg.write_bit(0, 1), Ok(()));
    assert_eq!(reg.value(), 0b0101_0001);
    assert_eq!(reg.write_bit(6, 0), Ok(()));
    assert_eq!(reg.value(), 0b0001_0001);
}

#[test]
fn read_bit_of_byte() {
    assert_eq!(read_bit(21, 0), Ok(1));
    assert_eq!(read_bit(21, 1), Ok(0));
    assert_eq!(read_bit(21, 4), Ok(1));
    assert_eq!(read_bit(0x80, 7), Ok(1));
}

#[test]
fn pin_eight_is_invalid() {
    let mut reg = Register::new(0xFF);
    assert_eq!(reg.read_bit(8), Err(GpioError::InvalidPin));
    assert_eq!(reg.write_bit(8, 1), Err(GpioError::InvalidPin));
    assert_eq!(reg.value(), 0xFF);
    assert_eq!(read_bit(0xFF, 8), Err(GpioError::InvalidPin));
    let port = Port::new(0, 0);
    assert_eq!(port.read_pin(8), Err(GpioError::InvalidPin));
}

#[test]
fn write_bit_rejects_value_two() {
    let mut reg = Register::new(0x0F);
    assert_eq!(reg.write_bit(2, 2), Err(GpioError::InvalidValue));
    assert_eq!(reg.value(), 0x0F);
}

#[test]
fn toggle_twice_restores_pin() {
    let mut port = Port::new(0b0010_0000, 0xFF);
    for pin in 0u8..8 {
        let before = port.read_pin(pin).unwrap();
        assert_eq!(port.toggle_pin(pin), Ok(()));
        assert_eq!(port.read_pin(pin), Ok(1 - before));
        assert_eq!(port.toggle_pin(pin), Ok(()));
        assert_eq!(port.read_pin(pin), Ok(before));
    }
    assert_eq!(port.data.value(), 0b0010_0000);
}

#[test]
fn toggle_needs_output_pin() {
    let mut port = Port::new(0, 0);
    assert_eq!(port.toggle_pin(4), Err(GpioError::PinNotConfigured));
    assert_eq!(port.toggle_pin(9), Err(GpioError::InvalidPin));
    assert_eq!(port.data.value(), 0);
}

#[test]
fn encode_byte_21_and_37() {
    let mut buffer = Vec::new();
    add_data_to_buffer(21, &mut buffer);
    assert_eq!(buffer, vec![0, 0, 0, 1, 0, 1, 0, 1]);
    let mut buffer = Vec::new();
    add_data_to_buffer(37, &mut buffer);
    assert_eq!(buffer, vec![0, 0, 1, 0, 0, 1, 0, 1]);
}

#[test]
fn add_data_appends_to_existing_bits() {
    let mut buffer = vec![1];
    add_data_to_buffer(0x80, &mut buffer);
    assert_eq!(buffer, vec![1, 1, 0, 0, 0, 0, 0, 0, 0]);
}

#[test]
fn encode_bytes_concatenates_in_order() {
    let bits = encode_bytes(&vec![21, 37]);
    assert_eq!(bits, vec![0, 0, 0, 1, 0, 1, 0, 1, 0, 0, 1, 0, 0, 1, 0, 1]);
    assert!(encode_bytes(&vec![]).is_empty());
}

#[test]
fn four_byte_buffer_acknowledges_every_byte() {
    let mut buffer = Vec::new();
    for byte in [21u8, 37, 14, 88] {
        add_data_to_buffer(byte, &mut buffer);
    }
    assert_eq!(buffer.len(), 32);
    let mut port = Port::new(0, 0);
    let cfg = PinConfig { clock_pin: 5, data_pin: 3 };
    let mut trace = Vec::new();
    assert_eq!(send_buffer(&mut port, &cfg, &buffer, &mut trace), Ok(()));
    let mut bit_index = 0usize;
    let mut acks_before = Vec::new();
    for (k, step) in trace.iter().enumerate() {
        match step {
            Step::Acknowledge => acks_before.push(bit_index),
            Step::DataWrite { value } => {
                assert_eq!(*value, buffer[bit_index]);
                // the acknowledgment window sits right before the byte's first bit
                if bit_index % 8 == 0 {
                    assert_eq!(trace[k - 3], Step::Acknowledge);
                    assert_eq!(trace[k - 2], Step::ClockToggle);
                    assert_eq!(trace[k - 1], Step::Wait);
                }
                bit_index += 1;
            }
            _ => {}
        }
    }
    assert_eq!(bit_index, 32);
    assert_eq!(acks_before, vec![0, 8, 16, 24]);
}

#[test]
fn write_pin_needs_configuration() {
    let mut port = Port::new(0, 0);
    assert_eq!(port.write_pin(3, 1), Err(GpioError::PinNotConfigured));
    assert_eq!(port.data.value(), 0);
    assert_eq!(port.configure_direction(3, true), Ok(()));
    assert_eq!(port.write_pin(3, 1), Ok(()));
    assert_eq!(port.data.value(), 0b0000_1000);
    assert_eq!(port.read_pin(3), Ok(1));
}

#[test]
fn write_pin_error_order() {
    let mut port = Port::new(0, 0);
    assert_eq!(port.write_pin(8, 1), Err(GpioError::InvalidPin));
    assert_eq!(port.write_pin(2, 5), Err(GpioError::PinNotConfigured));
    assert_eq!(port.configure_direction(2, true), Ok(()));
    assert_eq!(port.write_pin(2, 5), Err(GpioError::InvalidValue));
    assert_eq!(port.configure_direction(8, true), Err(GpioError::InvalidPin));
}

#[test]
fn configure_direction_back_to_input() {
    let mut port = Port::new(0, 0);
    assert_eq!(port.configure_direction(6, true), Ok(()));
    assert_eq!(port.direction.value(), 0b0100_0000);
    assert_eq!(port.configure_direction(6, false), Ok(()));
    assert_eq!(port.direction.value(), 0);
    assert_eq!(port.write_pin(6, 1), Err(GpioError::PinNotConfigured));
}

#[test]
fn read_pin_ignores_direction() {
    let port = Port::new(0b1000_0001, 0);
    assert_eq!(port.read_pin(0), Ok(1));
    assert_eq!(port.read_pin(7), Ok(1));
    assert_eq!(port.read_pin(4), Ok(0));
}

#[test]
fn send_all_ones_end_to_end() {
    let mut port = Port::new(0, 0);
    let cfg = PinConfig { clock_pin: 5, data_pin: 3 };
    let mut buffer = Vec::new();
    add_data_to_buffer(0xFF, &mut buffer);
    let clock_before = port.read_pin(5).unwrap();
    let mut trace = Vec::new();
    assert_eq!(send_buffer(&mut port, &cfg, &buffer, &mut trace), Ok(()));
    let writes: Vec<u8> = trace
        .iter()
        .filter_map(|s| match s {
            Step::DataWrite { value } => Some(*value),
            _ => None,
        })
        .collect();
    assert_eq!(writes, vec![1; 8]);
    let toggles = trace.iter().filter(|s| **s == Step::ClockToggle).count();
    assert_eq!(toggles, 9);
    assert_eq!(port.read_pin(5), Ok(1 - clock_before));
    assert_eq!(port.read_pin(3), Ok(1));
    assert_eq!(port.direction.value(), 0b0010_1000);
    assert_eq!(port.data.value(), 0b0010_1000);
}

#[test]
fn send_trace_shape() {
    let mut port = Port::new(0, 0);
    let cfg = PinConfig { clock_pin: 5, data_pin: 3 };
    let buffer = vec![1, 0];
    let mut trace = Vec::new();
    assert_eq!(send_buffer(&mut port, &cfg, &buffer, &mut trace), Ok(()));
    let dir = 0b0010_1000;
    assert_eq!(
        trace,
        vec![
            Step::Report { data: 0, direction: 0 },
            Step::Wait,
            Step::Wait,
            Step::Wait,
            Step::Wait,
            Step::Acknowledge,
            Step::ClockToggle,
            Step::Wait,
            Step::DataWrite { value: 1 },
            Step::ClockToggle,
            Step::Report { data: 0b0000_1000, direction: dir },
            Step::Wait,
            Step::DataWrite { value: 0 },
            Step::ClockToggle,
            Step::Report { data: 0b0010_0000, direction: dir },
            Step::Wait,
        ]
    );
}

#[test]
fn send_empty_buffer_only_settles() {
    let mut port = Port::new(0xFF, 0);
    let cfg = PinConfig { clock_pin: 1, data_pin: 2 };
    let mut trace = Vec::new();
    assert_eq!(send_buffer(&mut port, &cfg, &Vec::new(), &mut trace), Ok(()));
    assert_eq!(trace.len(), 5);
    assert_eq!(port.data.value(), 0xFF);
    assert_eq!(port.direction.value(), 0b0000_0110);
}

#[test]
fn send_with_invalid_clock_pin_aborts() {
    let mut port = Port::new(0, 0);
    let cfg = PinConfig { clock_pin: 8, data_pin: 3 };
    let mut trace = Vec::new();
    assert_eq!(send_buffer(&mut port, &cfg, &vec![1], &mut trace), Err(GpioError::InvalidPin));
    assert_eq!(trace.len(), 5);
    assert_eq!(port.direction.value(), 0b0000_1000);
    assert_eq!(port.data.value(), 0);
}

#[test]
fn initialise_with_invalid_data_pin() {
    let mut port = Port::new(0, 0);
    let cfg = PinConfig { clock_pin: 5, data_pin: 9 };
    let mut trace = Vec::new();
    assert_eq!(initialise(&mut port, &cfg, &mut trace), Err(GpioError::InvalidPin));
    assert_eq!(port.direction.value(), 0);
    assert_eq!(trace[0], Step::Report { data: 0, direction: 0 });
}

#[test]
fn toggle_clock_flips_clock_pin() {
    let mut port = Port::new(0, 0);
    let cfg = PinConfig { clock_pin: 5, data_pin: 3 };
    assert_eq!(toggle_clock(&mut port, &cfg), Err(GpioError::PinNotConfigured));
    let mut trace = Vec::new();
    assert_eq!(initialise(&mut port, &cfg, &mut trace), Ok(()));
    assert_eq!(toggle_clock(&mut port, &cfg), Ok(()));
    assert_eq!(port.data.value(), 0b0010_0000);
    assert_eq!(toggle_clock(&mut port, &cfg), Ok(()));
    assert_eq!(port.data.value(), 0);
}

#[test]
fn render_msb_first() {
    assert_eq!(text(render_bits(21)), "00010101");
    assert_eq!(text(render_bits(0)), "00000000");
    let port = Port::new(0x80, 0x01);
    let (data, direction) = render_port(&port);
    assert_eq!(text(data), "10000000");
    assert_eq!(text(direction), "00000001");
}
