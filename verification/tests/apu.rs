use rustboy_core::apu::Apu;
use rustboy_core::{AUDIO_SAMPLE_RATE, T_CYCLES_PER_SECOND};

#[test]
fn mod_produces_roughly_the_sample_rate() {
    let mut apu = Apu::new();
    apu.tick(T_CYCLES_PER_SECOND);
    // Two numbers per sample, one per ear.
    assert_eq!(apu.drain(), AUDIO_SAMPLE_RATE as usize * 2);
}

#[test]
fn apu_produces_roughly_the_sample_rate() {
    let mut apu = Apu::new();
    apu.tick(T_CYCLES_PER_SECOND);
    // Two numbers per sample, one per ear.
    assert_eq!(apu.drain(), AUDIO_SAMPLE_RATE as usize * 2);
}
