use halgen::decl::{Argument, FunctionDecl};
use halgen::synth::{derive_method_name, synthesize, Visibility};

fn arg(name: &str, type_text: &str) -> Argument {
    Argument {
        name: Some(name.to_string()),
        type_text: type_text.to_string(),
        pretty_text: format!("{type_text} {name}"),
    }
}

fn fd(name: &str, args: Vec<Argument>, ret: &str) -> FunctionDecl {
    FunctionDecl {
        name: name.to_string(),
        arguments: args,
        return_type_text: Some(ret.to_string()),
    }
}

#[test]
fn round_trip_name_hal_uart_transmit() {
    assert_eq!(
        derive_method_name("HAL_UART_Transmit", "uart"),
        Some("transmit".to_string())
    );
}

#[test]
fn round_trip_name_ll_usart_enable_it_rxne() {
    assert_eq!(
        derive_method_name("LL_USART_EnableIT_RXNE", "usart"),
        Some("enable_it_rxne".to_string())
    );
}

#[test]
fn multi_word_names_become_lower_snake_case() {
    // Also guards the case-conversion wrapper: handing the input back
    // unchanged would yield "TransmitReceive".
    assert_eq!(
        derive_method_name("HAL_UART_TransmitReceive", "uart"),
        Some("transmit_receive".to_string())
    );
}

#[test]
fn name_without_separator_derives_nothing() {
    assert_eq!(derive_method_name("HALUARTTransmit", "uart"), None);
}

#[test]
fn instance_method_drops_only_the_handle_argument() {
    let f = fd(
        "HAL_UART_Transmit",
        vec![
            arg("huart", "UART_HandleTypeDef *"),
            arg("pData", "uint8_t *"),
            arg("Size", "uint16_t"),
            arg("Timeout", "uint32_t"),
        ],
        "HAL_StatusTypeDef",
    );
    let m = synthesize(&f, Some("UART_HandleTypeDef *"), "uart").unwrap();
    assert!(matches!(m.visibility, Visibility::Instance));
    assert_eq!(m.method_name, "transmit");
    assert_eq!(m.return_type_text, "HAL_StatusTypeDef");
    assert_eq!(m.original_function_name, "HAL_UART_Transmit");
    assert_eq!(m.parameters.len(), 3);
    assert_eq!(m.parameters[0].pretty_text, "uint8_t * pData");
    assert!(m.parameters.iter().all(|p| !p.type_text.contains("HandleTypeDef")));
    assert_eq!(
        m.call_arguments,
        vec![
            "this->handle".to_string(),
            "pData".to_string(),
            "Size".to_string(),
            "Timeout".to_string(),
        ]
    );
}

#[test]
fn non_handle_first_argument_is_kept() {
    let f = fd("HAL_UART_SetConfig", vec![arg("Mode", "uint32_t")], "void");
    let m = synthesize(&f, Some("UART_HandleTypeDef *"), "uart").unwrap();
    assert!(matches!(m.visibility, Visibility::Static));
    assert_eq!(m.parameters.len(), 1);
    assert_eq!(m.parameters[0].pretty_text, "uint32_t Mode");
    assert_eq!(m.call_arguments, vec!["Mode".to_string()]);
}

#[test]
fn handle_needle_ignores_leading_double_underscore() {
    let f = fd("HAL_UART_Abort", vec![arg("huart", "UART_HandleTypeDef *")], "void");
    let m = synthesize(&f, Some("__UART_HandleTypeDef *"), "uart").unwrap();
    assert!(matches!(m.visibility, Visibility::Instance));
}

#[test]
fn foreign_function_synthesizes_nothing() {
    // The name holds neither the handle in its first argument nor the
    // peripheral token: it belongs to a sibling peripheral.
    let f = fd("HAL_SPI_Transmit", vec![arg("hspi", "SPI_HandleTypeDef *")], "void");
    assert!(synthesize(&f, Some("UART_HandleTypeDef *"), "uart").is_none());
}

#[test]
fn zero_argument_function_with_peripheral_token_is_static() {
    let f = fd("HAL_UART_Reset", Vec::new(), "void");
    let m = synthesize(&f, Some("UART_HandleTypeDef *"), "uart").unwrap();
    assert!(matches!(m.visibility, Visibility::Static));
    assert_eq!(m.method_name, "reset");
    assert!(m.parameters.is_empty());
    assert!(m.call_arguments.is_empty());
}

#[test]
fn zero_argument_function_without_peripheral_token_is_discarded() {
    let f = fd("HAL_DeInitTick", Vec::new(), "void");
    assert!(synthesize(&f, Some("UART_HandleTypeDef *"), "uart").is_none());
    assert!(synthesize(&f, None, "uart").is_none());
}

#[test]
fn unresolved_argument_name_skips_the_function() {
    let f = FunctionDecl {
        name: "HAL_UART_Transmit".to_string(),
        arguments: vec![
            arg("huart", "UART_HandleTypeDef *"),
            Argument {
                name: None,
                type_text: "uint8_t *".to_string(),
                pretty_text: "uint8_t *".to_string(),
            },
        ],
        return_type_text: Some("void".to_string()),
    };
    assert!(synthesize(&f, Some("UART_HandleTypeDef *"), "uart").is_none());
}

#[test]
fn unresolved_return_type_skips_the_function() {
    let f = FunctionDecl {
        name: "HAL_UART_Abort".to_string(),
        arguments: vec![arg("huart", "UART_HandleTypeDef *")],
        return_type_text: None,
    };
    assert!(synthesize(&f, Some("UART_HandleTypeDef *"), "uart").is_none());
}
