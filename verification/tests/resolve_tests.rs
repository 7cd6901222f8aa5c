use halgen::classify::Kind;
use halgen::decl::{Argument, FunctionDecl, StructDecl};
use halgen::resolve::resolve;

fn sd(name: &str) -> StructDecl {
    StructDecl { name: name.to_string() }
}

fn arg(name: &str, type_text: &str) -> Argument {
    Argument {
        name: Some(name.to_string()),
        type_text: type_text.to_string(),
        pretty_text: format!("{type_text} {name}"),
    }
}

fn fd(name: &str, args: Vec<Argument>, ret: &str) -> FunctionDecl {
    FunctionDecl {
        name: name.to_string(),
        arguments: args,
        return_type_text: Some(ret.to_string()),
    }
}

#[test]
fn hal_handle_for_uart() {
    let structs = vec![sd("UART_HandleTypeDef")];
    let handles = resolve(Kind::Hal, "uart", &structs, &Vec::new());
    assert_eq!(handles, vec!["UART_HandleTypeDef *".to_string()]);
    assert!(handles.iter().all(|h| !h.contains("const")));
}

#[test]
fn hal_keeps_only_matching_handle_structs() {
    let structs = vec![
        sd("UART_HandleTypeDef"),
        sd("SPI_HandleTypeDef"),
        sd("UART_const_HandleTypeDef"),
        sd("UART_InitTypeDef"),
        sd("USART_HandleTypeDef"),
    ];
    let handles = resolve(Kind::Hal, "uart", &structs, &Vec::new());
    // "usart" does not hold "uart" as a substring, so the sibling
    // peripheral's handle stays out.
    assert_eq!(handles, vec!["UART_HandleTypeDef *".to_string()]);
}

#[test]
fn hal_matches_peripheral_case_insensitively() {
    let structs = vec![sd("Uart_HandleTypeDef")];
    let handles = resolve(Kind::Hal, "UART", &structs, &Vec::new());
    assert_eq!(handles, vec!["Uart_HandleTypeDef *".to_string()]);
}

#[test]
fn hal_deduplicates_repeated_struct_names() {
    let structs = vec![sd("UART_HandleTypeDef"), sd("UART_HandleTypeDef")];
    let handles = resolve(Kind::Hal, "uart", &structs, &Vec::new());
    assert_eq!(handles.len(), 1);
}

#[test]
fn ll_takes_first_argument_types_in_first_seen_order() {
    let fns = vec![
        fd("LL_USART_Enable", vec![arg("USARTx", "USART_TypeDef *")], "void"),
        fd("LL_USART_Disable", vec![arg("USARTx", "USART_TypeDef *")], "void"),
        fd("LL_USART_Special", vec![arg("LPUARTx", "LPUSART_TypeDef *")], "void"),
        fd("LL_GPIO_SetMode", vec![arg("GPIOx", "GPIO_TypeDef *")], "void"),
    ];
    let handles = resolve(Kind::Ll, "usart", &Vec::new(), &fns);
    assert_eq!(
        handles,
        vec!["USART_TypeDef *".to_string(), "LPUSART_TypeDef *".to_string()]
    );
}

#[test]
fn ll_skips_const_and_untagged_types() {
    let fns = vec![
        fd("LL_USART_Get", vec![arg("USARTx", "const USART_TypeDef *")], "uint32_t"),
        fd("LL_USART_Plain", vec![arg("x", "uint32_t")], "void"),
        fd("LL_USART_NoArgs", Vec::new(), "void"),
    ];
    let handles = resolve(Kind::Ll, "usart", &Vec::new(), &fns);
    assert!(handles.is_empty());
}

#[test]
fn resolving_twice_yields_identical_output() {
    let structs = vec![sd("UART_HandleTypeDef"), sd("LPUART_HandleTypeDef")];
    let fns = vec![fd("LL_USART_Enable", vec![arg("USARTx", "USART_TypeDef *")], "void")];
    let first = resolve(Kind::Hal, "uart", &structs, &fns);
    let second = resolve(Kind::Hal, "uart", &structs, &fns);
    assert_eq!(first, second);
    assert_eq!(
        first,
        vec!["UART_HandleTypeDef *".to_string(), "LPUART_HandleTypeDef *".to_string()]
    );
    let first_ll = resolve(Kind::Ll, "usart", &structs, &fns);
    let second_ll = resolve(Kind::Ll, "usart", &structs, &fns);
    assert_eq!(first_ll, second_ll);
}

#[test]
fn empty_result_is_valid() {
    let handles = resolve(Kind::Hal, "uart", &Vec::new(), &Vec::new());
    assert!(handles.is_empty());
}
