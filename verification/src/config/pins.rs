//! Pin assignment of the ESP32-S3 board.

use vstd::prelude::*;

verus! {

// W5500 Ethernet controller on SPI3.
pub const ETH_SPI_HOST: u8 = 2;
pub const ETH_SPI_MISO: u8 = 11;
pub const ETH_SPI_MOSI: u8 = 12;
pub const ETH_SPI_SCLK: u8 = 10;
pub const ETH_SPI_CS: u8 = 9;
pub const ETH_INT: u8 = 13;
pub const ETH_RST: u8 = 14;

// RS485 port 1 on UART1; DE and RE share a pin.
pub const RS485_0_UART: u8 = 1;
pub const RS485_0_TX: u8 = 45;
pub const RS485_0_RX: u8 = 46;
pub const RS485_0_DE: u8 = 7;

// RS485 port 2 on UART2.
pub const RS485_1_UART: u8 = 2;
pub const RS485_1_TX: u8 = 42;
pub const RS485_1_RX: u8 = 41;
pub const RS485_1_DE: u8 = 8;

// RS485 port 3 on UART0, which the USB console shares; 255 means no DE pin.
pub const RS485_2_UART: u8 = 0;
pub const RS485_2_TX: u8 = 43;
pub const RS485_2_RX: u8 = 44;
pub const RS485_2_DE: u8 = 255;

// Supply enables, high to switch on.
pub const POWER_LED_EN: u8 = 21;
pub const POWER_RELAY_EN: u8 = 33;

/// Inputs of the RS485 address switch, read at start-up.
pub const RS485_ADDR_PINS: [u8; 4] = [19, 20, 48, 47];
pub const ESP_STOP_PIN: u8 = 34;

// PCA9555 expanders on two bit-banged I2C buses.
pub const NCA9555_IIC_SCL: u8 = 36;
pub const NCA9555_IIC_SDA: u8 = 35;
pub const NCA9555_LED_SCL: u8 = 37;
pub const NCA9555_LED_SDA: u8 = 38;
pub const NCA9555_INT: u8 = 34;

// Fibre detection inputs.
pub const FIB1_PIN: u8 = 39;
pub const FIB2_PIN: u8 = 40;

/// Direct digital inputs; boards with an expander do not use them.
pub const DI_PINS: [u8; 8] = [15, 16, 17, 18, 7, 8, 15, 16];

/// Direct digital outputs; boards with an expander do not use them.
pub const DO_PINS: [u8; 8] = [15, 16, 17, 18, 7, 8, 15, 16];

pub const AI_ADC_UNIT: u8 = 1;

/// ADC1 channels of the analogue inputs.
pub const AI_CHANNELS: [u8; 6] = [0, 1, 2, 3, 4, 5];

/// PWM channel and pin of each analogue output.
pub const AO_CHANNELS: [(u8, u8); 4] = [(0, 15), (1, 16), (2, 17), (3, 18)];
pub const AO_FREQ_HZ: u32 = 5000;

/// PWM resolution, equal to that of the converter.
pub const AO_RESOLUTION_BITS: u8 = 12;

// I2C bus of the F3 and F4 expanders.
pub const I2C_PORT: u8 = 0;
pub const I2C_SDA: u8 = 21;
pub const I2C_SCL: u8 = 33;
pub const I2C_FREQ_HZ: u32 = 400_000;

} // verus!
