use cache_rs::{Cache, Expiring, Lookup};
use std::collections::HashMap;
use std::future::Future;
use std::time::Duration;

type BoxError = Box<dyn std::error::Error + Send + Sync>;

#[derive(Debug, Clone, PartialEq)]
struct User {
    id: u32,
    name: String,
    email: String,
}

#[derive(Debug, Clone, PartialEq)]
struct Product {
    id: String,
    name: String,
    price: f64,
    in_stock: bool,
}

fn block_on_types<T>(fut: impl Future<Output = T>) -> T {
    tokio::runtime::Builder::new_current_thread()
        .enable_time()
        .build()
        .unwrap()
        .block_on(fut)
}

async fn get_typed<K, V, F, G, Fut>(cache: &mut Cache<K, V, F, G>, key: K) -> Result<V, BoxError>
where
    V: Clone,
    F: Fn(K) -> Fut,
    G: Fn(&K) -> String,
    Fut: Future<Output = Result<Expiring<V>, BoxError>>,
{
    match cache.lookup(&key) {
        Lookup::Hit(item) => Ok(item.value),
        Lookup::Miss(identifier) => {
            let loaded = (cache.get_config().load)(key).await;
            cache.cache_item(identifier, loaded).map(|item| item.value)
        }
    }
}

fn one_second() -> u128 {
    Duration::from_secs(1).as_nanos()
}

#[test]
fn test_string_cache() {
    block_on_types(async {
        let mut cache = Cache::new(
            |key: String| {
                Box::pin(async move {
                    let value = format!("processed_{}", key.to_uppercase());
                    Ok::<_, BoxError>(Expiring::with_duration(value, one_second()))
                })
            },
            |key: &String| key.clone(),
        );

        let result = get_typed(&mut cache, "hello".to_string()).await.unwrap();
        assert_eq!(result, "processed_HELLO");
    });
}

#[test]
fn test_struct_cache() {
    block_on_types(async {
        let mut cache = Cache::new(
            |user_id: u32| {
                Box::pin(async move {
                    tokio::time::sleep(Duration::from_millis(10)).await;
                    let user = User {
                        id: user_id,
                        name: format!("User{}", user_id),
                        email: format!("user{}@example.com", user_id),
                    };
                    Ok::<_, BoxError>(Expiring::with_duration(user, one_second()))
                })
            },
            |key: &u32| key.to_string(),
        );

        let user = get_typed(&mut cache, 123).await.unwrap();
        assert_eq!(user.id, 123);
        assert_eq!(user.name, "User123");
        assert_eq!(user.email, "user123@example.com");
    });
}

#[test]
fn test_vec_cache() {
    block_on_types(async {
        let mut cache = Cache::new(
            |count: usize| {
                Box::pin(async move {
                    let numbers: Vec<i32> = (0..count as i32).collect();
                    Ok::<_, BoxError>(Expiring::with_duration(numbers, one_second()))
                })
            },
            |key: &usize| key.to_string(),
        );

        let numbers = get_typed(&mut cache, 5).await.unwrap();
        assert_eq!(numbers, vec![0, 1, 2, 3, 4]);
    });
}

#[test]
fn test_hashmap_cache() {
    block_on_types(async {
        let mut cache = Cache::new(
            |category: String| {
                Box::pin(async move {
                    let mut products = HashMap::new();
                    products.insert(
                        "prod1".to_string(),
                        Product {
                            id: "prod1".to_string(),
                            name: format!("{} Product 1", category),
                            price: 99.99,
                            in_stock: true,
                        },
                    );
                    products.insert(
                        "prod2".to_string(),
                        Product {
                            id: "prod2".to_string(),
                            name: format!("{} Product 2", category),
                            price: 149.99,
                            in_stock: false,
                        },
                    );
                    Ok::<_, BoxError>(Expiring::with_duration(products, one_second()))
                })
            },
            |key: &String| key.clone(),
        );

        let products = get_typed(&mut cache, "Electronics".to_string()).await.unwrap();
        assert_eq!(products.len(), 2);
        assert!(products.contains_key("prod1"));
        assert_eq!(products["prod1"].name, "Electronics Product 1");
    });
}

#[test]
fn test_tuple_keys() {
    block_on_types(async {
        let mut cache = Cache::new(
            |key: (String, u32)| {
                Box::pin(async move {
                    let (category, page) = key;
                    let result = format!("{}:page{}", category, page);
                    Ok::<_, BoxError>(Expiring::with_duration(result, one_second()))
                })
            },
            |key: &(String, u32)| format!("{}:{}", key.0, key.1),
        );

        let result = get_typed(&mut cache, ("products".to_string(), 2)).await.unwrap();
        assert_eq!(result, "products:page2");
    });
}

#[test]
fn test_option_values() {
    block_on_types(async {
        let mut cache = Cache::new(
            |key: i32| {
                Box::pin(async move {
                    let value = if key % 2 == 0 {
                        Some(format!("even_{}", key))
                    } else {
                        None
                    };
                    Ok::<_, BoxError>(Expiring::with_duration(value, one_second()))
                })
            },
            |key: &i32| key.to_string(),
        );

        let even_result = get_typed(&mut cache, 4).await.unwrap();
        assert_eq!(even_result, Some("even_4".to_string()));

        let odd_result = get_typed(&mut cache, 3).await.unwrap();
        assert_eq!(odd_result, None);
    });
}

#[test]
fn test_result_values() {
    block_on_types(async {
        let mut cache = Cache::new(
            |key: i32| {
                Box::pin(async move {
                    let value: Result<String, String> = if key > 0 {
                        Ok(format!("positive_{}", key))
                    } else {
                        Err("negative_number".to_string())
                    };
                    Ok::<_, BoxError>(Expiring::with_duration(value, one_second()))
                })
            },
            |key: &i32| key.to_string(),
        );

        let positive_result = get_typed(&mut cache, 5).await.unwrap();
        assert_eq!(positive_result, Ok("positive_5".to_string()));

        let negative_result = get_typed(&mut cache, -1).await.unwrap();
        assert_eq!(negative_result, Err("negative_number".to_string()));
    });
}
