use f4_w25q::bus::{BusError, Data, Transaction};
use f4_w25q::protocol::{Output, Step};
use f4_w25q::w25q::{Address, DeviceId, SectorAddress, W25Q};

/// A model of the chip: memory, the two status registers, the write-enable
/// latch, and a busy period after each erase or program that lasts for a
/// number of status reads.
struct Chip {
    memory: Vec<u8>,
    status2: u8,
    write_enabled: bool,
    busy_reads: u32,
    busy_period: u32,
    violations: u32,
    log: Vec<Transaction>,
}

impl Chip {
    fn new(busy_period: u32) -> Chip {
        Chip {
            memory: vec![0x00; 64 * 1024],
            status2: 0x00,
            write_enabled: false,
            busy_reads: 0,
            busy_period,
            violations: 0,
            log: Vec::new(),
        }
    }

    fn accepts_write(&mut self) -> bool {
        if self.busy_reads > 0 || !self.write_enabled {
            self.violations += 1;
            return false;
        }
        self.write_enabled = false;
        true
    }

    fn transfer(&mut self, transaction: &Transaction) -> Result<Vec<u8>, BusError> {
        self.log.push(transaction.clone());
        let address = transaction.address.map(|(address, _)| address as usize);
        match transaction.instruction {
            0xAB => Ok(vec![0x17]),
            0x05 => {
                let busy = self.busy_reads > 0;
                if busy {
                    self.busy_reads -= 1;
                }
                Ok(vec![(busy as u8) | ((self.write_enabled as u8) << 1)])
            }
            0x35 => Ok(vec![self.status2]),
            0x06 => {
                if self.busy_reads > 0 {
                    self.violations += 1;
                } else {
                    self.write_enabled = true;
                }
                Ok(Vec::new())
            }
            0x31 => {
                if self.accepts_write() {
                    if let Data::Write { bytes, .. } = &transaction.data {
                        self.status2 = bytes[0];
                    }
                }
                Ok(Vec::new())
            }
            0x20 => {
                if self.accepts_write() {
                    let start = address.unwrap() / 4096 * 4096;
                    self.memory[start..start + 4096].fill(0xFF);
                    self.busy_reads = self.busy_period;
                }
                Ok(Vec::new())
            }
            0x60 => {
                if self.accepts_write() {
                    self.memory.fill(0xFF);
                    self.busy_reads = self.busy_period;
                }
                Ok(Vec::new())
            }
            0x32 => {
                if self.accepts_write() {
                    let start = address.unwrap();
                    let page = start / 256 * 256;
                    if let Data::Write { bytes, .. } = &transaction.data {
                        for (i, byte) in bytes.iter().enumerate() {
                            let at = page + (start + i) % 256;
                            self.memory[at] &= *byte;
                        }
                    }
                    self.busy_reads = self.busy_period;
                }
                Ok(Vec::new())
            }
            0xEB => {
                if self.busy_reads > 0 {
                    self.violations += 1;
                }
                match transaction.data {
                    Data::Read { len, .. } => {
                        let start = address.unwrap();
                        Ok(self.memory[start..start + len].to_vec())
                    }
                    _ => Err(BusError::ArgumentInvalid),
                }
            }
            _ => Err(BusError::Unknown),
        }
    }

    fn instructions(&self) -> Vec<u8> {
        self.log.iter().map(|transaction| transaction.instruction).collect()
    }

    fn instructions_without_status_reads(&self) -> Vec<u8> {
        self.instructions().into_iter().filter(|instruction| *instruction != 0x05).collect()
    }
}

/// Performs the transactions of one operation on the chip until the driver
/// is done with it.
fn run_with(
    chip: &mut Chip,
    first: Step,
    mut resume: impl FnMut(Result<Vec<u8>, BusError>) -> Step,
) -> Result<Output, BusError> {
    let mut step = first;
    loop {
        match step {
            Step::Transfer(transaction) => {
                let reply = chip.transfer(&transaction);
                step = resume(reply);
            }
            Step::Done(output) => return Ok(output),
            Step::Failed(error) => return Err(error),
        }
    }
}

fn run(chip: &mut Chip, driver: &mut W25Q, first: Step) -> Result<Output, BusError> {
    run_with(chip, first, |reply| driver.resume(reply))
}

fn erase_sector(chip: &mut Chip, driver: &mut W25Q, address: u32) -> Result<Output, BusError> {
    let (mut operation, first) = driver.erase_sector(SectorAddress::from_address(address));
    run_with(chip, first, |reply| operation.resume(reply))
}

fn chip_erase(chip: &mut Chip, driver: &mut W25Q) -> Result<Output, BusError> {
    let (mut operation, first) = driver.chip_erase();
    run_with(chip, first, |reply| operation.resume(reply))
}

fn program_page(
    chip: &mut Chip,
    driver: &mut W25Q,
    address: u32,
    data: &[u8],
) -> Result<Output, BusError> {
    let (mut operation, first) = driver.program_page(Address::from(address), data);
    run_with(chip, first, |reply| operation.resume(reply))
}

fn initialised(chip: &mut Chip) -> W25Q {
    let (mut driver, first) = W25Q::new();
    assert_eq!(run(chip, &mut driver, first), Ok(Output::Nothing));
    chip.log.clear();
    driver
}

fn wait(chip: &mut Chip, driver: &mut W25Q) {
    let first = driver.wait_on_busy();
    assert_eq!(run(chip, driver, first), Ok(Output::Nothing));
}

#[test]
fn erase_program_read_round_trip() {
    let mut chip = Chip::new(5);
    let mut driver = initialised(&mut chip);

    assert_eq!(erase_sector(&mut chip, &mut driver, 0), Ok(Output::Pending));
    wait(&mut chip, &mut driver);

    assert_eq!(program_page(&mut chip, &mut driver, 0, &[0xAA; 256]), Ok(Output::Pending));
    wait(&mut chip, &mut driver);

    let first = driver.read(Address::from(0u32), 256);
    assert_eq!(run(&mut chip, &mut driver, first), Ok(Output::Data(vec![0xAA; 256])));
    assert_eq!(chip.violations, 0);
}

#[test]
fn erase_leaves_the_sector_blank_and_its_neighbour_alone() {
    let mut chip = Chip::new(3);
    let mut driver = initialised(&mut chip);

    assert_eq!(erase_sector(&mut chip, &mut driver, 4096), Ok(Output::Pending));
    wait(&mut chip, &mut driver);

    let first = driver.read(Address::from(4096u32), 4096);
    assert_eq!(run(&mut chip, &mut driver, first), Ok(Output::Data(vec![0xFF; 4096])));
    let first = driver.read(Address::from(0u32), 4096);
    assert_eq!(run(&mut chip, &mut driver, first), Ok(Output::Data(vec![0x00; 4096])));
    assert_eq!(chip.violations, 0);
}

#[test]
fn chip_erase_blanks_everything() {
    let mut chip = Chip::new(7);
    let mut driver = initialised(&mut chip);

    assert_eq!(chip_erase(&mut chip, &mut driver), Ok(Output::Pending));
    wait(&mut chip, &mut driver);

    let first = driver.read(Address::from(0xF000u32), 4096);
    assert_eq!(run(&mut chip, &mut driver, first), Ok(Output::Data(vec![0xFF; 4096])));
    assert_eq!(chip.violations, 0);
}

#[test]
fn release_without_poll_leaves_the_chip_not_busy() {
    let mut chip = Chip::new(9);
    let mut driver = initialised(&mut chip);

    {
        let (mut operation, first) = driver.erase_sector(SectorAddress::from_address(0));
        let started = run_with(&mut chip, first, |reply| operation.resume(reply));
        assert_eq!(started, Ok(Output::Pending));
        assert!(!operation.is_complete());
        let first = operation.release();
        let released = run_with(&mut chip, first, |reply| operation.resume(reply));
        assert_eq!(released, Ok(Output::Nothing));
        assert!(operation.is_complete());
    }

    let first = driver.is_busy();
    assert_eq!(run(&mut chip, &mut driver, first), Ok(Output::Busy(false)));
    assert_eq!(chip.violations, 0);
}

#[test]
fn polled_operation_becomes_ready() {
    let mut chip = Chip::new(4);
    let mut driver = initialised(&mut chip);

    let (mut operation, first) = driver.program_page(Address::from(0u32), &[0x00; 16]);
    let started = run_with(&mut chip, first, |reply| operation.resume(reply));
    assert_eq!(started, Ok(Output::Pending));

    let mut polls = 0;
    while !operation.is_complete() {
        let transaction = match operation.poll() {
            Step::Transfer(transaction) => transaction,
            other => panic!("unexpected step: {:?}", other),
        };
        let step = operation.resume(chip.transfer(&transaction));
        assert!(matches!(step, Step::Done(Output::Busy(_))));
        polls += 1;
    }
    assert_eq!(polls, 5);
    assert_eq!(chip.violations, 0);
}

#[test]
fn write_enable_is_followed_by_exactly_one_trigger() {
    let mut chip = Chip::new(6);
    let mut driver = initialised(&mut chip);

    assert_eq!(erase_sector(&mut chip, &mut driver, 0x2000), Ok(Output::Pending));
    assert_eq!(chip.instructions_without_status_reads(), vec![0x06, 0x20]);
    assert_eq!(chip.instructions().first(), Some(&0x06));
    assert_eq!(chip.instructions().last(), Some(&0x20));
    wait(&mut chip, &mut driver);

    chip.log.clear();
    assert_eq!(program_page(&mut chip, &mut driver, 0x2000, &[1, 2, 3, 4]), Ok(Output::Pending));
    assert_eq!(chip.instructions(), vec![0x06, 0x05, 0x32]);
    wait(&mut chip, &mut driver);

    chip.log.clear();
    assert_eq!(chip_erase(&mut chip, &mut driver), Ok(Output::Pending));
    assert_eq!(chip.instructions(), vec![0x06, 0x05, 0x05, 0x60]);
    assert_eq!(chip.violations, 0);
}

#[test]
fn initialisation_with_quad_enabled_issues_no_write() {
    let mut chip = Chip::new(3);
    chip.status2 = 0x02;
    let (mut driver, first) = W25Q::new();
    assert_eq!(run(&mut chip, &mut driver, first), Ok(Output::Nothing));
    assert_eq!(chip.instructions(), vec![0xAB, 0x35]);
    assert!(chip.log.iter().all(|transaction| !matches!(transaction.data, Data::Write { .. })));
    assert_eq!(chip.status2, 0x02);
}

#[test]
fn quad_enable_check_with_bit_set_issues_no_write() {
    let mut chip = Chip::new(3);
    chip.status2 = 0x02;
    let mut driver = initialised(&mut chip);
    let first = driver.quad_enable();
    assert_eq!(run(&mut chip, &mut driver, first), Ok(Output::Nothing));
    assert_eq!(chip.instructions(), vec![0x35]);
}

#[test]
fn initialisation_with_quad_disabled_enables_it_once() {
    let mut chip = Chip::new(3);
    chip.status2 = 0x40;
    let (mut driver, first) = W25Q::new();
    assert_eq!(run(&mut chip, &mut driver, first), Ok(Output::Nothing));
    assert_eq!(chip.instructions(), vec![0xAB, 0x35, 0x06, 0x05, 0x31]);
    assert_eq!(chip.status2, 0x42);
    assert_eq!(chip.violations, 0);

    chip.log.clear();
    let first = driver.quad_enable();
    assert_eq!(run(&mut chip, &mut driver, first), Ok(Output::Nothing));
    assert_eq!(chip.instructions(), vec![0x35]);
}

#[test]
fn device_id_comes_from_the_chip() {
    let mut chip = Chip::new(1);
    let mut driver = initialised(&mut chip);
    let first = driver.release_from_power_down();
    assert_eq!(run(&mut chip, &mut driver, first), Ok(Output::DeviceId(DeviceId(0x17))));
}

#[test]
fn oversized_program_reaches_no_chip() {
    let mut chip = Chip::new(3);
    let mut driver = initialised(&mut chip);
    assert_eq!(
        program_page(&mut chip, &mut driver, 0, &[0x00; 300]),
        Err(BusError::ArgumentInvalid)
    );
    assert!(chip.log.is_empty());
}

#[test]
fn unresolved_program_keeps_the_next_one_off_the_bus() {
    let mut chip = Chip::new(5);
    let mut driver = initialised(&mut chip);
    assert_eq!(program_page(&mut chip, &mut driver, 0, &[0x0F; 8]), Ok(Output::Pending));
    chip.log.clear();
    assert_eq!(program_page(&mut chip, &mut driver, 8, &[0xF0; 8]), Err(BusError::Busy));
    assert_eq!(erase_sector(&mut chip, &mut driver, 0), Err(BusError::Busy));
    assert!(chip.log.is_empty());
    wait(&mut chip, &mut driver);
    assert_eq!(program_page(&mut chip, &mut driver, 8, &[0xF0; 8]), Ok(Output::Pending));
    assert_eq!(chip.violations, 0);
}
