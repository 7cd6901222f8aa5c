use halgen::classify::{classify, output_filename, ClassifyError, Kind};

#[test]
fn classifies_hal_source_file() {
    let c = classify("stm32f4xx_hal_uart.c").unwrap();
    assert_eq!(c.version, "stm32f4xx");
    assert!(matches!(c.kind, Kind::Hal));
    assert_eq!(c.peripheral, "uart");
    assert!(!c.is_extension);
}

#[test]
fn classifies_ll_header_file() {
    let c = classify("stm32f4xx_ll_usart.h").unwrap();
    assert_eq!(c.version, "stm32f4xx");
    assert!(matches!(c.kind, Kind::Ll));
    assert_eq!(c.peripheral, "usart");
}

#[test]
fn peripheral_part_may_hold_separators() {
    let c = classify("stm32g0xx_hal_flash_ramfunc.c").unwrap();
    assert_eq!(c.version, "stm32g0xx");
    assert!(matches!(c.kind, Kind::Hal));
    assert_eq!(c.peripheral, "flash_ramfunc");
}

#[test]
fn rejects_bad_extension() {
    assert!(matches!(classify("stm32f4xx_hal_uart.txt"), Err(ClassifyError::BadExtension)));
    assert!(matches!(classify("stm32f4xx_hal_uart"), Err(ClassifyError::BadExtension)));
}

#[test]
fn rejects_names_without_both_separators() {
    assert!(matches!(classify("stm32f4xx.c"), Err(ClassifyError::MalformedName)));
    assert!(matches!(classify("stm32f4xx_hal.c"), Err(ClassifyError::MalformedName)));
}

#[test]
fn rejects_unknown_kind() {
    assert!(matches!(classify("stm32f4xx_foo_uart.c"), Err(ClassifyError::UnknownKind)));
}

#[test]
fn rejects_extension_modules() {
    assert!(matches!(classify("stm32f4xx_hal_uart_ex.c"), Err(ClassifyError::ExtensionModule)));
    assert!(matches!(classify("stm32f4xx_ll_usart_ex.h"), Err(ClassifyError::ExtensionModule)));
    assert!(matches!(classify("stm32f4xx_foo_uart_ex.c"), Err(ClassifyError::ExtensionModule)));
}

#[test]
fn output_name_swaps_the_extension() {
    let c = classify("stm32f4xx_hal_uart.c").unwrap();
    assert_eq!(output_filename(&c), "stm32f4xx_hal_uart.hpp");
    let c = classify("stm32f4xx_ll_usart.h").unwrap();
    assert_eq!(output_filename(&c), "stm32f4xx_ll_usart.hpp");
}
