use gfx_core::capability::{Capability, General};
use gfx_core::command::{CommandBuffer, Encoder};
use gfx_core::Backend;

struct TestBackend;

struct TestBuffer {
    recorded: Vec<u32>,
}

impl Backend for TestBackend {
    type SubmitInfo = Vec<u32>;
    type RawCommandBuffer = TestBuffer;
}

impl CommandBuffer<TestBackend> for TestBuffer {
    fn submit_info(&self) -> Vec<u32> {
        self.recorded.clone()
    }

    fn end(&mut self) -> Vec<u32> {
        self.recorded.clone()
    }
}

impl Capability for TestBuffer {
    type Capability = General;
}

#[test]
fn encoder_records_and_finishes() {
    let mut encoder: Encoder<TestBackend, TestBuffer> = Encoder::new(TestBuffer { recorded: vec![1] });
    encoder.recorded.push(2);
    assert_eq!(encoder.recorded.len(), 2);
    let submit = encoder.finish();
    assert_eq!(submit.get_info(), &vec![1, 2]);
    assert_eq!(submit.into_info(), vec![1, 2]);
}
