use chipr::bench::Bench;
use chipr::chip8::VM;

#[test]
fn new_benchmark_is_at_rest() {
    let mut vm = VM::new();
    vm.registers[3] = 7;
    let bench = Bench::new(vm);
    assert_eq!(bench.max_cycles, 100_000_000);
    assert_eq!(bench.duration, 0);
    assert_eq!(bench.score, 0);
    assert_eq!(bench.vm.registers[3], 7);
    assert_eq!(bench.vm.pc, 512);
}

#[test]
fn benchmark_counts_the_steps_before_the_halt() {
    let mut bench = Bench::new(VM::new());
    bench.score = 5;
    bench.test();
    assert_eq!(bench.score, 767);
    assert_eq!(bench.vm.pc, 2046);
    assert_eq!(bench.vm.timer_counter, 0);
    assert_eq!(bench.max_cycles, 100_000_000);
}

#[test]
fn benchmark_takes_one_step_beyond_its_limit() {
    let mut bench = Bench::new(VM::new());
    bench.max_cycles = 10;
    bench.test();
    assert_eq!(bench.score, 10);
    assert_eq!(bench.vm.pc, 512 + 2 * 11);
}

#[test]
fn benchmark_with_no_cycles_takes_one_step() {
    let mut bench = Bench::new(VM::new());
    bench.max_cycles = 0;
    bench.test();
    assert_eq!(bench.score, 0);
    assert_eq!(bench.vm.pc, 514);
}

#[test]
fn benchmark_stops_where_the_machine_cannot_step() {
    let mut vm = VM::new();
    // 6001, 6002, then F033 with the index register beyond memory.
    vm.memory[512] = 0x60;
    vm.memory[513] = 0x01;
    vm.memory[514] = 0x60;
    vm.memory[515] = 0x02;
    vm.memory[516] = 0xF0;
    vm.memory[517] = 0x33;
    vm.i = 4095;
    let mut bench = Bench::new(vm);
    bench.test();
    assert_eq!(bench.score, 2);
    assert_eq!(bench.vm.pc, 516);
    assert_eq!(bench.vm.registers[0], 2);
}

#[test]
fn benchmark_of_a_loop_runs_to_its_limit() {
    let mut vm = VM::new();
    // 1200: jump to itself.
    vm.memory[512] = 0x12;
    vm.memory[513] = 0x00;
    let mut bench = Bench::new(vm);
    bench.max_cycles = 5000;
    bench.test();
    assert_eq!(bench.score, 5000);
    assert_eq!(bench.vm.pc, 512);
}

#[test]
fn benchmark_measures_its_duration() {
    let mut vm = VM::new();
    vm.memory[512] = 0x12;
    vm.memory[513] = 0x00;
    let mut bench = Bench::new(vm);
    bench.max_cycles = 200_000;
    bench.duration = u128::MAX;
    bench.test();
    assert_eq!(bench.score, 200_000);
    assert!(bench.duration > 0);
    assert!(bench.duration < u128::MAX);
}
