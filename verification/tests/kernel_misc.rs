use aetherion::ai::inference::MultiHeadAttention;
use aetherion::ai::whisper::{AudioBuffer, WhisperConfig};
use aetherion::drivers::keyboard::{read_key, Keyboard};
use aetherion::drivers::pci::{PciDevice, UsbControllerType};
use aetherion::drivers::sdr::IqSample;
use aetherion::drivers::usb::descriptor::{EndpointDescriptor, EndpointTransferType};
use aetherion::gdt::Gdt;
use aetherion::interrupts::idt::Idt;
use aetherion::ipc::IpcSystem;
use aetherion::process::{Pid, ProcessState, ProcessTable};
use aetherion::syscall::syscall_handler;

#[test]
fn test_gdt_creation() {
    let gdt = Gdt::new();
    assert_eq!(gdt.entry_count(), 5);
}

#[test]
fn test_keyboard_ring() {
    let mut kb = Keyboard::new();
    assert_eq!(read_key(&mut kb), None);
    kb.push(0x1E);
    kb.push(0x30);
    assert_eq!(read_key(&mut kb), Some(0x1E));
    assert_eq!(read_key(&mut kb), Some(0x30));
    assert_eq!(read_key(&mut kb), None);
}

#[test]
fn test_process_table() {
    let mut table = ProcessTable::new();
    assert_eq!(table.schedule(), None);
    let pid = table.create_process(0x1000, 0x2000, false).unwrap();
    assert_eq!(pid.as_usize(), 1);
    assert_eq!(table.schedule(), Some(pid));
    let pid2 = table.create_process(0x3000, 0x4000, true).unwrap();
    assert_eq!(pid2.as_usize(), 2);
}

#[test]
fn test_process_states() {
    let pid = Pid::new(7);
    let mut p = aetherion::process::Process::new_kernel(pid, 0x1000, 0x2000);
    assert_eq!(p.pid(), pid);
    assert_eq!(p.state(), ProcessState::Ready);
    p.set_state(ProcessState::Running);
    assert_eq!(p.state(), ProcessState::Running);
}

#[test]
fn test_ipc_round_trip() {
    let mut ipc = IpcSystem::new();
    let alice = Pid::new(1);
    let bob = Pid::new(2);
    // No queue yet: sends fail, receives are empty.
    assert!(ipc.send(bob, alice, vec![1, 2, 3]).is_err());
    ipc.init_process_queue(bob, 2);
    assert!(ipc.send(bob, alice, vec![1, 2, 3]).is_ok());
    assert!(ipc.send(bob, alice, vec![4]).is_ok());
    // The queue is bounded.
    assert!(ipc.send(bob, alice, vec![5]).is_err());
    let m = ipc.receive(bob).unwrap();
    assert_eq!(m.sender(), alice);
    assert_eq!(m.data(), &[1, 2, 3]);
    let m2 = ipc.receive(bob).unwrap();
    assert_eq!(m2.data(), &[4]);
    assert!(ipc.receive(bob).is_none());
}

#[test]
fn test_syscall_dispatch() {
    assert_eq!(syscall_handler(1, 1, 0, 42), 42);
    assert_eq!(syscall_handler(1, 2, 0, 42), -1);
    assert_eq!(syscall_handler(2, 0, 0, 0), -1);
    assert_eq!(syscall_handler(99, 0, 0, 0), -1);
}

#[test]
fn test_idt_set_handler() {
    let mut idt = Idt::new();
    let empty = idt.entry(14);
    idt.set_handler(14, 0xDEAD_BEEF_1234);
    assert_ne!(idt.entry(14), empty);
    assert_eq!(idt.entry(15), empty);
}

#[test]
fn test_pci_classification() {
    let mut dev = PciDevice {
        bus: 0,
        device: 1,
        function: 0,
        vendor_id: 0x8086,
        device_id: 0x9D2F,
        class_code: 0x0C,
        subclass: 0x03,
        prog_if: 0x30,
        revision_id: 0,
        header_type: 0,
        bar0: 0,
        bar1: 0,
        bar2: 0,
        bar3: 0,
        bar4: 0,
        bar5: 0,
        interrupt_line: 0,
        interrupt_pin: 0,
    };
    assert!(dev.is_usb_controller());
    assert_eq!(dev.usb_controller_type(), Some(UsbControllerType::Xhci));
    assert_eq!(dev.device_name(), "Intel USB 3.0 XHCI Controller");
    dev.class_code = 0x02;
    assert!(!dev.is_usb_controller());
    assert_eq!(dev.usb_controller_type(), None);
}

#[test]
fn test_endpoint_descriptor_fields() {
    let ep = EndpointDescriptor {
        length: 7,
        descriptor_type: 5,
        endpoint_address: 0x81,
        attributes: 0x03,
        max_packet_size: 8,
        interval: 10,
    };
    assert_eq!(ep.endpoint_number(), 1);
    assert!(ep.is_in());
    assert_eq!(ep.transfer_type(), EndpointTransferType::Interrupt);
}

#[test]
fn test_iq_sample() {
    let s = IqSample::from_u8(127, 255);
    assert_eq!(s.i, 0);
    assert_eq!(s.q, 128);
    let t = IqSample::new(-5, 9);
    assert_eq!(t.i, -5);
    assert_eq!(t.q, 9);
}

#[test]
fn test_whisper_configs() {
    let tiny = WhisperConfig::tiny();
    assert_eq!(tiny.n_vocab, 51864);
    assert_eq!(tiny.n_audio_layer, 4);
    let base = WhisperConfig::base();
    assert_eq!(base.n_audio_state, 512);
    let attn = MultiHeadAttention::new(tiny.n_audio_head, tiny.n_audio_state);
    let _ = attn;
}

#[test]
fn test_audio_buffer() {
    let mut buf = AudioBuffer::new(1000, 4); // 4 samples capacity
    buf.push(&[1, 2, 3]);
    assert_eq!(buf.get_samples(), &[1, 2, 3]);
    buf.push(&[4, 5]);
    // The oldest sample is dropped once the capacity is reached.
    assert_eq!(buf.get_samples(), &[2, 3, 4, 5]);
    buf.clear();
    assert_eq!(buf.get_samples().len(), 0);
}

#[test]
fn test_keyboard_scancodes() {
    let dev = aetherion::drivers::usb::UsbDevice {
        vendor_id: 0x046d,
        product_id: 0xc534,
        device_class: 0x03,
        device_subclass: 0x01,
        protocol: 0x01,
        max_packet_size: 8,
        manufacturer: 1,
        product: 2,
        serial_number: 0,
    };
    let mut kb = aetherion::drivers::usb::hid::UsbKeyboard::new(dev, 1);
    assert_eq!(kb.scancode_to_ascii(0x04), Some('a'));
    assert_eq!(kb.scancode_to_ascii(0x1D), Some('z'));
    assert_eq!(kb.scancode_to_ascii(0x1E), Some('1'));
    assert_eq!(kb.scancode_to_ascii(0x27), Some('0'));
    assert_eq!(kb.scancode_to_ascii(0x28), Some('\n'));
    assert_eq!(kb.scancode_to_ascii(0x2C), Some(' '));
    assert_eq!(kb.scancode_to_ascii(0x00), None);
    assert_eq!(kb.scancode_to_ascii(0xFF), None);
    // An idle report decodes to nothing.
    assert_eq!(kb.poll(), Vec::<char>::new());
}

#[test]
fn test_transcript_phrases() {
    // Only tokens outside the special band count as text.
    let f = aetherion::ai::whisper::transcript_text;
    assert_eq!(f(&[50258, 50259, 50359]), "Hello");
    assert_eq!(f(&[1000, 1001, 1002, 1003, 1004, 1005, 1006]), "Hello world");
    let twelve: Vec<usize> = (1000..1012).collect();
    assert_eq!(f(&twelve), "Hello from Aetherion");
    let many: Vec<usize> = (1000..1020).collect();
    assert_eq!(f(&many), "This is a test of speech recognition");
}
