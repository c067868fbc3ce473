use std::sync::atomic::{AtomicUsize, Ordering};
use std::sync::Arc;
use std::time::Duration;

use cloud_sync_receiver::batch::download_permits;
use tokio::sync::Semaphore;

#[test]
fn in_flight_downloads_never_exceed_permits() {
    let runtime = tokio::runtime::Builder::new_current_thread()
        .enable_time()
        .build()
        .unwrap();
    let permits = download_permits(Some(3));
    let peak = runtime.block_on(async move {
        let semaphore = Arc::new(Semaphore::new(permits));
        let in_flight = Arc::new(AtomicUsize::new(0));
        let peak = Arc::new(AtomicUsize::new(0));
        let mut handles = Vec::new();
        for i in 0..10u64 {
            let semaphore = Arc::clone(&semaphore);
            let in_flight = Arc::clone(&in_flight);
            let peak = Arc::clone(&peak);
            handles.push(tokio::spawn(async move {
                let _permit = semaphore.acquire().await.unwrap();
                let now = in_flight.fetch_add(1, Ordering::SeqCst) + 1;
                peak.fetch_max(now, Ordering::SeqCst);
                tokio::time::sleep(Duration::from_millis(1 + i % 3)).await;
                in_flight.fetch_sub(1, Ordering::SeqCst);
            }));
        }
        for h in handles {
            h.await.unwrap();
        }
        peak.load(Ordering::SeqCst)
    });
    assert_eq!(permits, 3);
    assert!(peak <= 3);
    assert!(peak >= 1);
}
