// Tests drive the library through its public surface, with the per-tap sine
// and cosine tables computed here in ordinary floating point, exactly as an
// embedding application would.

use fractional_delay::engine::FirFilter;
use fractional_delay::errors::FilterError;
use fractional_delay::line::FractionalDelay;
use fractional_delay::synth::{kernel_length, synthesize};

fn tables(delay: f64) -> (Vec<u64>, Vec<u64>) {
    let whole = delay.floor() as usize;
    let frac = delay - delay.floor();
    let n = whole * 2 + 1;
    let center = n / 2;
    let mut sines: Vec<u64> = Vec::with_capacity(n);
    let mut cosines: Vec<u64> = Vec::with_capacity(n);
    for t in 0..n {
        let x = t as f64 - frac;
        let d = x - center as f64;
        sines.push((std::f64::consts::PI * d).sin().to_bits());
        cosines.push((2.0 * std::f64::consts::PI * (x + 0.5) / n as f64).cos().to_bits());
    }
    (sines, cosines)
}

fn make_line(delay: f64) -> FractionalDelay {
    let (sines, cosines) = tables(delay);
    FractionalDelay::new(delay.to_bits(), &sines, &cosines).unwrap()
}

fn weights_of(delay: f64) -> Vec<f64> {
    let (sines, cosines) = tables(delay);
    synthesize(delay.to_bits(), &sines, &cosines)
        .unwrap()
        .iter()
        .map(|&b| f64::from_bits(b))
        .collect()
}

struct Tone {
    delta: f64,
    current: f64,
}

impl Tone {
    fn new(frequency_hz: u32, sample_rate: u32) -> Self {
        Tone { delta: (frequency_hz as f64 * std::f64::consts::TAU) / sample_rate as f64, current: 0.0 }
    }

    fn next(&mut self) -> f64 {
        let val = self.current.sin();
        self.current += self.delta;
        if self.current > std::f64::consts::TAU {
            self.current -= std::f64::consts::TAU;
        }
        val
    }
}

fn three_tone_inputs(count: usize) -> Vec<f64> {
    let mut a = Tone::new(600, 48_000);
    let mut b = Tone::new(1200, 48_000);
    let mut c = Tone::new(2562, 48_000);
    (0..count).map(|_| a.next() + b.next() + c.next()).collect()
}

#[test]
fn construction_rejects_negative_delay() {
    let r = FractionalDelay::new((-1.0f64).to_bits(), &Vec::new(), &Vec::new());
    assert!(matches!(r, Err(FilterError::InvalidParameter)));
}

#[test]
fn synthesize_rejects_negative_delay() {
    let r = synthesize((-0.25f64).to_bits(), &Vec::new(), &Vec::new());
    assert_eq!(r.unwrap_err(), FilterError::InvalidParameter);
}

#[test]
fn kernel_length_is_odd_and_matches_whole_part() {
    assert_eq!(kernel_length(7.816f64.to_bits()).unwrap(), 15);
    assert_eq!(kernel_length(0.0f64.to_bits()).unwrap(), 1);
    assert_eq!(kernel_length(3.0f64.to_bits()).unwrap(), 7);
    assert_eq!(kernel_length(0.999f64.to_bits()).unwrap(), 1);
    assert!(kernel_length((-2.0f64).to_bits()).is_err());
}

#[test]
fn empty_weight_sequence_is_rejected() {
    let r = FirFilter::new(Vec::new());
    assert!(matches!(r, Err(FilterError::InvalidParameter)));
}

#[test]
fn zero_delay_kernel_is_exactly_one() {
    let w = weights_of(0.0);
    assert_eq!(w.len(), 1);
    assert_eq!(w[0], 1.0);
    assert_eq!(w[0].to_bits(), 1.0f64.to_bits());
}

#[test]
fn zero_delay_line_is_passthrough() {
    let mut line = make_line(0.0);
    for &x in &[0.0f64, 1.0, -1.0, 0.5640074333893328, 1e-300, -2.75e18, 3.25] {
        let y = f64::from_bits(line.process(x.to_bits()));
        assert_eq!(y, x);
    }
}

#[test]
fn dc_gain_is_near_unity() {
    // holds for whole-number delays and for any delay of three samples or
    // more; a short kernel with a fractional remainder (say 0.5) loses gain
    for &d in &[0.0, 1.0, 2.0, 3.0, 3.7, 7.816, 25.25, 49.9] {
        let sum: f64 = weights_of(d).iter().sum();
        assert!((sum - 1.0).abs() <= 1e-3, "delay {d}: weight sum {sum}");
    }
}

#[test]
fn identical_lines_produce_bit_identical_streams() {
    let inputs: Vec<u64> = three_tone_inputs(257).iter().map(|x| x.to_bits()).collect();
    let mut first = make_line(7.816);
    let mut second = make_line(7.816);
    for &x in &inputs {
        assert_eq!(first.process(x), second.process(x));
    }
}

#[test]
fn buffer_never_grows() {
    let mut line = make_line(7.816);
    let n = line.len();
    assert_eq!(n, 15);
    for x in three_tone_inputs(5 * n + 3) {
        line.process(x.to_bits());
    }
    assert_eq!(line.len(), n);
}

#[test]
fn process_block_matches_per_sample_processing() {
    let inputs: Vec<u64> = three_tone_inputs(64).iter().map(|x| x.to_bits()).collect();
    let mut blockwise = make_line(3.25);
    let mut stepwise = make_line(3.25);
    let outs = blockwise.process_block(&inputs);
    for (i, &x) in inputs.iter().enumerate() {
        assert_eq!(outs[i], stepwise.process(x));
    }
}

#[test]
fn impulse_peaks_at_the_integer_delay() {
    let mut line = make_line(3.0);
    let n = line.len();
    let mut outs: Vec<f64> = Vec::new();
    for t in 0..n {
        let x = if t == 0 { 1.0f64 } else { 0.0f64 };
        outs.push(f64::from_bits(line.process(x.to_bits())));
    }
    let mut peak = 0;
    for t in 0..n {
        if outs[t].abs() > outs[peak].abs() {
            peak = t;
        }
    }
    assert_eq!(peak, 3);
    assert!((outs[3] - 1.0).abs() <= 1e-6, "peak {}", outs[3]);
    for t in 0..n {
        if t != 3 {
            assert!(outs[t].abs() < 0.01, "tap {t}: {}", outs[t]);
        }
    }
}

#[test]
fn negative_zero_delay_is_accepted() {
    assert_eq!(kernel_length((-0.0f64).to_bits()).unwrap(), 1);
    let mut line = make_line(-0.0);
    let y = f64::from_bits(line.process(0.25f64.to_bits()));
    assert_eq!(y, 0.25);
}

#[test]
fn nan_delay_builds_a_single_tap_that_emits_nan() {
    let nan = f64::NAN;
    assert_eq!(kernel_length(nan.to_bits()).unwrap(), 1);
    let (sines, cosines) = tables_for_nan();
    let mut line = FractionalDelay::new(nan.to_bits(), &sines, &cosines).unwrap();
    let y = f64::from_bits(line.process(1.0f64.to_bits()));
    assert!(y.is_nan());
}

fn tables_for_nan() -> (Vec<u64>, Vec<u64>) {
    // with a NaN delay the fractional remainder is NaN, so both per-tap
    // arguments are NaN as well
    (vec![f64::NAN.to_bits()], vec![f64::NAN.to_bits()])
}
